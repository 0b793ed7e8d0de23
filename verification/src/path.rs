//! Telling theme files from the other entries of a directory walk.
//!
//! A path is looked at as the bytes of its text. The separator `/` and the
//! dot are single bytes that occur inside no longer character, so the rule
//! below reads the final component of a path exactly.
//!
//! `/` is the only separator known here. A backslash is a byte of a name
//! like any other, as it is on Unix. Where the platform takes it for a
//! separator too, a path that ends in `\.tmTheme` is still read as a file
//! with a stem and the extension `tmTheme`, though its final component there
//! is a hidden file without one.

use vstd::prelude::*;
use vstd::utf8::encode_utf8;

verus! {

/// One entry of a directory walk: where it is and whether it is a directory.
#[derive(Clone, Debug, PartialEq, Eq)]
pub struct WalkEntry {
    pub path: String,
    pub is_dir: bool,
}

/// The suffix that marks a theme file: the bytes of `.tmTheme`.
pub open spec fn theme_suffix() -> Seq<u8> {
    seq![46u8, 116u8, 109u8, 84u8, 104u8, 101u8, 109u8, 101u8]
}

/// Whether the final component of `path` has the extension `tmTheme`: the
/// path ends in `.tmTheme`, case-sensitive, and in its final component
/// something stands before that dot (a component that is only `.tmTheme`
/// is a hidden file without an extension). [`lemma_theme_extension`] shows
/// that this is the same as asking [`extension`] of [`file_name`].
pub open spec fn has_theme_extension(path: Seq<u8>) -> bool {
    let n = path.len() as int;
    &&& n > 8
    &&& path[n - 9] != 47u8
    &&& path.subrange(n - 8, n) == theme_suffix()
}

/// Where the final component of `path` begins: behind its last `/`, or at
/// the start of a path without one.
pub open spec fn name_start(path: Seq<u8>) -> int
    decreases path.len(),
{
    if path.len() == 0 || path.last() == 47u8 {
        path.len() as int
    } else {
        name_start(path.drop_last())
    }
}

/// The final component of `path`.
pub open spec fn file_name(path: Seq<u8>) -> Seq<u8> {
    path.subrange(name_start(path), path.len() as int)
}

/// The place of the last dot of `name`, or -1 where it has none.
pub open spec fn last_dot(name: Seq<u8>) -> int
    decreases name.len(),
{
    if name.len() == 0 {
        -1
    } else if name.last() == 46u8 {
        name.len() - 1
    } else {
        last_dot(name.drop_last())
    }
}

/// The extension of a file name: what follows its last dot. A name without
/// a dot has none, nor has one whose only dot is its first byte, nor `..`.
pub open spec fn extension(name: Seq<u8>) -> Option<Seq<u8>> {
    if last_dot(name) <= 0 || name == seq![46u8, 46u8] {
        None
    } else {
        Some(name.subrange(last_dot(name) + 1, name.len() as int))
    }
}

/// The extension that marks a theme file: the bytes of `tmTheme`.
pub open spec fn theme_extension() -> Seq<u8> {
    seq![116u8, 109u8, 84u8, 104u8, 101u8, 109u8, 101u8]
}

/// The final component begins inside the path, holds no `/`, and stands
/// behind one unless it begins the path.
pub proof fn lemma_name_start(path: Seq<u8>)
    ensures
        0 <= name_start(path) <= path.len(),
        forall|i: int| name_start(path) <= i < path.len() ==> path[i] != 47u8,
        name_start(path) > 0 ==> path[name_start(path) - 1] == 47u8,
    decreases path.len(),
{
    if path.len() > 0 && path.last() != 47u8 {
        let init = path.drop_last();
        lemma_name_start(init);
        assert forall|i: int| name_start(path) <= i < path.len() implies path[i] != 47u8 by {
            if i < init.len() {
                assert(init[i] == path[i]);
            }
        }
        if name_start(path) > 0 {
            assert(init[name_start(path) - 1] == path[name_start(path) - 1]);
        }
    }
}

/// The last dot lies inside the name, is a dot, and no dot follows it.
pub proof fn lemma_last_dot(name: Seq<u8>)
    ensures
        -1 <= last_dot(name) < name.len(),
        last_dot(name) >= 0 ==> name[last_dot(name)] == 46u8,
        forall|i: int| last_dot(name) < i < name.len() ==> name[i] != 46u8,
    decreases name.len(),
{
    if name.len() > 0 && name.last() != 46u8 {
        let init = name.drop_last();
        lemma_last_dot(init);
        assert forall|i: int| last_dot(name) < i < name.len() implies name[i] != 46u8 by {
            if i < init.len() {
                assert(init[i] == name[i]);
            }
        }
        if last_dot(name) >= 0 {
            assert(init[last_dot(name)] == name[last_dot(name)]);
        }
    }
}

/// A path is named as a theme file exactly if the extension of its final
/// component is `tmTheme`.
pub proof fn lemma_theme_extension(path: Seq<u8>)
    ensures
        has_theme_extension(path) <==> extension(file_name(path)) == Some(theme_extension()),
{
    let n = path.len() as int;
    let s = name_start(path);
    let name = file_name(path);
    let m = name.len() as int;
    let d = last_dot(name);
    lemma_name_start(path);
    lemma_last_dot(name);
    if has_theme_extension(path) {
        let tail = path.subrange(n - 8, n);
        assert forall|i: int| n - 9 <= i < n implies path[i] != 47u8 by {
            if i >= n - 8 {
                assert(path[i] == tail[i - (n - 8)]);
            }
        }
        assert(s <= n - 9);
        assert(name[m - 8] == tail[0]);
        assert forall|i: int| m - 8 < i < m implies name[i] != 46u8 by {
            assert(name[i] == tail[i - (m - 8)]);
        }
        assert(d == m - 8);
        assert(name.subrange(d + 1, m) =~= theme_extension()) by {
            assert forall|i: int| 0 <= i < 7 implies name.subrange(d + 1, m)[i]
                == theme_extension()[i] by {
                assert(name.subrange(d + 1, m)[i] == tail[i + 1]);
            }
        }
    }
    if extension(name) == Some(theme_extension()) {
        let ext = name.subrange(d + 1, m);
        assert(ext.len() == 7);
        assert(d == m - 8);
        assert(path[n - 9] == name[m - 9]);
        assert(path.subrange(n - 8, n) =~= theme_suffix()) by {
            assert forall|i: int| 0 <= i < 8 implies path.subrange(n - 8, n)[i]
                == theme_suffix()[i] by {
                if i == 0 {
                    assert(path[n - 8] == name[d]);
                } else {
                    assert(path[n - 8 + i] == ext[i - 1]);
                }
            }
        }
    }
}

/// Whether a walk entry is a theme file: not a directory, and named as one.
pub open spec fn is_theme_file(entry: WalkEntry) -> bool {
    !entry.is_dir && has_theme_extension(encode_utf8(entry.path@))
}

/// Decides [`has_theme_extension`] on the bytes of a path.
pub fn is_theme_path(path: &[u8]) -> (r: bool)
    ensures
        r == has_theme_extension(path@),
{
    let n: usize = path.len();
    if n <= 8 {
        return false;
    }
    let r = path[n - 9] != 47u8 && path[n - 8] == 46u8 && path[n - 7] == 116u8 && path[n - 6]
        == 109u8 && path[n - 5] == 84u8 && path[n - 4] == 104u8 && path[n - 3] == 101u8 && path[n
        - 2] == 109u8 && path[n - 1] == 101u8;
    proof {
        let tail = path@.subrange(n - 8, n as int);
        if r {
            assert(tail =~= theme_suffix());
        } else if path[n - 9] != 47u8 {
            assert(tail[0] == path[n - 8] && tail[1] == path[n - 7] && tail[2] == path[n - 6]
                && tail[3] == path[n - 5] && tail[4] == path[n - 4] && tail[5] == path[n - 3]
                && tail[6] == path[n - 2] && tail[7] == path[n - 1]);
        }
    }
    r
}

impl WalkEntry {
    /// Decides [`is_theme_file`] for this entry.
    pub fn is_theme_file(&self) -> (r: bool)
        ensures
            r == is_theme_file(*self),
    {
        !self.is_dir && is_theme_path(self.path.as_str().as_bytes())
    }
}

} // verus!
