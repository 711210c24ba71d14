//! Paths as text: the file name of a path, its stem and extension, its parent.
//!
//! A path is a sequence of characters in which `/` separates the components.
//! The file name is what follows the last separator; the stem is the file name
//! without its extension.

use crate::text::{
    append_text, char_len, ends_with, last_index_of, rfind_char, same_text, slice,
};
use vstd::prelude::*;

verus! {

/// The position at which the file name of `p` begins.
pub open spec fn name_start(p: Seq<char>) -> int {
    match last_index_of(p, '/') {
        Some(i) => i + 1,
        None => 0,
    }
}

/// The file name of `p`: what follows its last separator.
pub open spec fn file_name_of(p: Seq<char>) -> Seq<char> {
    p.skip(name_start(p))
}

/// What precedes the file name of `p`, the last separator included.
pub open spec fn directory_of(p: Seq<char>) -> Seq<char> {
    p.take(name_start(p))
}

/// The stem of a file name: the name up to its last dot. A name without a dot,
/// one whose only dot comes first, and the name `..` are their own stems.
pub open spec fn stem_of(name: Seq<char>) -> Seq<char> {
    if name == seq!['.', '.'] {
        name
    } else {
        match last_index_of(name, '.') {
            Some(i) => if i == 0 {
                name
            } else {
                name.take(i)
            },
            None => name,
        }
    }
}

/// The path `p` with the extension of its file name replaced by `ext`, or
/// removed where `ext` is empty. A path without a file name stays as it is.
pub open spec fn with_extension_of(p: Seq<char>, ext: Seq<char>) -> Seq<char> {
    let name = file_name_of(p);
    if name.len() == 0 {
        p
    } else if ext.len() == 0 {
        directory_of(p) + stem_of(name)
    } else {
        directory_of(p) + stem_of(name) + seq!['.'] + ext
    }
}

/// The path `p` without its last component.
pub open spec fn parent_of(p: Seq<char>) -> Seq<char> {
    match last_index_of(p, '/') {
        Some(i) => if i == 0 {
            seq!['/']
        } else {
            p.take(i)
        },
        None => Seq::empty(),
    }
}

/// The path of the entry `name` in the directory `dir`.
pub open spec fn joined(dir: Seq<char>, name: Seq<char>) -> Seq<char> {
    if dir.len() == 0 || dir.last() == '/' {
        dir + name
    } else {
        dir + seq!['/'] + name
    }
}

/// The stem of the file name of `p`, or a fixed message where `p` has no file
/// name.
pub open spec fn stem_text_of(p: Seq<char>) -> Seq<char> {
    if file_name_of(p).len() == 0 {
        "Default file stem value ERROR."@
    } else {
        stem_of(file_name_of(p))
    }
}

/// The position at which the file name of `path` begins.
pub fn file_name_start(path: &str) -> (r: usize)
    ensures
        r == name_start(path@),
        r <= path@.len(),
{
    let n: usize = char_len(path);
    proof {
        crate::text::lemma_last_index_is_last(path@, '/');
    }
    match rfind_char(path, '/') {
        Some(i) => i + 1,
        None => 0,
    }
}

/// The file name of `path`.
pub fn file_name(path: &str) -> (r: String)
    ensures
        r@ == file_name_of(path@),
{
    let start: usize = file_name_start(path);
    let n: usize = char_len(path);
    let r = slice(path, start, n);
    proof {
        assert(path@.subrange(start as int, n as int) =~= path@.skip(start as int));
    }
    r
}

/// The stem of the file name `name`.
pub fn file_stem(name: &str) -> (r: String)
    ensures
        r@ == stem_of(name@),
{
    let n: usize = char_len(name);
    proof {
        crate::text::lemma_last_index_is_last(name@, '.');
        reveal_strlit("..");
        assert(name@.subrange(0, n as int) =~= name@);
        assert(".."@ =~= seq!['.', '.']);
    }
    if same_text(name, "..") {
        return slice(name, 0, n);
    }
    match rfind_char(name, '.') {
        Some(i) => {
            if i == 0 {
                slice(name, 0, n)
            } else {
                let r = slice(name, 0, i);
                proof {
                    assert(name@.subrange(0, i as int) =~= name@.take(i as int));
                }
                r
            }
        },
        None => slice(name, 0, n),
    }
}

/// The stem of the file name of `path`, or a fixed message where the path has
/// no file name.
pub fn string_from_stem(path: &str) -> (r: String)
    ensures
        r@ == stem_text_of(path@),
{
    let name = file_name(path);
    if char_len(name.as_str()) == 0 {
        String::from_str("Default file stem value ERROR.")
    } else {
        file_stem(name.as_str())
    }
}

/// The path with the extension of its file name replaced by `ext`, or removed
/// where `ext` is empty.
pub fn with_extension(path: &str, ext: &str) -> (r: String)
    ensures
        r@ == with_extension_of(path@, ext@),
{
    let start: usize = file_name_start(path);
    let n: usize = char_len(path);
    let name = file_name(path);
    if char_len(name.as_str()) == 0 {
        let r = slice(path, 0, n);
        proof {
            assert(path@.subrange(0, n as int) =~= path@);
        }
        return r;
    }
    let mut r = slice(path, 0, start);
    proof {
        assert(path@.subrange(0, start as int) =~= directory_of(path@));
    }
    let stem = file_stem(name.as_str());
    r.append(stem.as_str());
    if char_len(ext) != 0 {
        proof {
            reveal_strlit(".");
            assert("."@ =~= seq!['.']);
        }
        r.append(".");
        r.append(ext);
    }
    r
}

/// The path without its last component.
pub fn parent(path: &str) -> (r: String)
    ensures
        r@ == parent_of(path@),
{
    proof {
        crate::text::lemma_last_index_is_last(path@, '/');
    }
    match rfind_char(path, '/') {
        Some(i) => {
            if i == 0 {
                proof {
                    reveal_strlit("/");
                    assert("/"@ =~= seq!['/']);
                }
                String::from_str("/")
            } else {
                let r = slice(path, 0, i);
                proof {
                    assert(path@.subrange(0, i as int) =~= path@.take(i as int));
                }
                r
            }
        },
        None => {
            let r = String::from_str("");
            proof {
                reveal_strlit("");
                assert(r@ =~= Seq::<char>::empty());
            }
            r
        },
    }
}

/// The path of the entry `name` in the directory `dir`.
pub fn join(dir: &str, name: &str) -> (r: String)
    ensures
        r@ == joined(dir@, name@),
{
    proof {
        reveal_strlit("/");
        assert("/"@ =~= seq!['/']);
    }
    let n: usize = char_len(dir);
    if n == 0 || ends_with(dir, "/") {
        proof {
            if n != 0 {
                assert(dir@.subrange(n - 1, n as int) =~= seq!['/']);
                assert(dir@.subrange(n - 1, n as int)[0] == dir@[n - 1]);
            }
        }
        append_text(dir, name)
    } else {
        proof {
            if dir@.last() == '/' {
                assert(dir@.subrange(n - 1, n as int) =~= seq!['/']);
            }
        }
        let mut r = append_text(dir, "/");
        r.append(name);
        r
    }
}

} // verus!
