//! Paths as text: their last component, and their extension.

use crate::model;
use std::path::Path;
use vstd::prelude::*;

verus! {

/// One text is a part of another.
pub open spec fn is_part(t: Seq<char>, s: Seq<char>) -> bool {
    exists|i: int, j: int| 0 <= i <= j <= s.len() && t == #[trigger] s.subrange(i, j)
}

/// What follows the last slash of a path.
pub open spec fn after_slash(path: Seq<char>) -> Seq<char>
    decreases path.len(),
{
    if path.len() == 0 || path.last() == '/' {
        Seq::empty()
    } else {
        after_slash(path.drop_last()).push(path.last())
    }
}

// ---------------------------------------------------------------------------
// The last component
// ---------------------------------------------------------------------------

/// The path without the slashes at its end, and without a `.` behind one.
pub open spec fn tidied(path: Seq<char>) -> Seq<char>
    decreases path.len(),
{
    if path.len() > 0 && path.last() == '/' {
        tidied(path.drop_last())
    } else if path.len() > 1 && path.last() == '.' && path[path.len() - 2] == '/' {
        tidied(path.drop_last())
    } else {
        path
    }
}

/// Every system reads the path in one way: as names that slashes part.
pub open spec fn is_plain(path: Seq<char>) -> bool {
    &&& !path.contains('\\')
    &&& !(path.len() >= 2 && path[0] == '/' && path[1] == '/')
    &&& !after_slash(tidied(path)).contains(':')
}

/// The name that a plain path ends in. One that leads up, or to the working
/// directory, or to the root ends in none.
pub open spec fn last_name(path: Seq<char>) -> Option<Seq<char>> {
    let last = after_slash(tidied(path));
    if last.len() == 0 || last == "."@ || last == ".."@ {
        None
    } else {
        Some(last)
    }
}

/// What is said of a path's last component.
pub open spec fn is_last(name: Option<Seq<char>>, path: Seq<char>) -> bool {
    &&& name matches Some(n) ==> is_part(n, path)
    &&& is_plain(path) ==> name == last_name(path)
}

/// `Path::file_name`: the last component of a path, if it has one and it is
/// text. A component is a part of the path. Of a plain path it is the name behind
/// the last slash, where slashes at the end, and a `.` behind one, are ignored; a
/// path that ends in `..` has none. Which other separators there are, and what is
/// a drive, is up to the system, and is not said here.
#[verifier::external_body]
pub(crate) fn last_component(path: &str) -> (r: Option<String>)
    ensures
        is_last(model::text_of(r), path@),
{
    Path::new(path).file_name().and_then(|n| n.to_str()).map(|n| n.to_string())
}

// ---------------------------------------------------------------------------
// The extension
// ---------------------------------------------------------------------------

/// Parts the components of a path, or a drive from them, on some system.
pub open spec fn may_separate(c: char) -> bool {
    c == '/' || c == '\\' || c == ':'
}

/// Where the last dot is; -1 where there is none.
pub open spec fn last_dot(s: Seq<char>) -> int
    decreases s.len(),
{
    if s.len() == 0 {
        -1
    } else if s.last() == '.' {
        s.len() - 1
    } else {
        last_dot(s.drop_last())
    }
}

/// The path does not start as the name of a server may.
pub open spec fn is_local(path: Seq<char>) -> bool {
    !(path.len() >= 2 && may_separate(path[0]) && may_separate(path[1]))
}

/// However the system reads the path, it ends in a name with an extension: a dot
/// that is not the first of the name, with something behind it. (A name of two
/// dots and an extension does not count.)
pub open spec fn has_extension(path: Seq<char>) -> bool {
    let i = last_dot(path);
    &&& is_local(path)
    &&& 1 <= i < path.len() - 1
    &&& !may_separate(path[i - 1])
    &&& !(path[i - 1] == '.' && (i == 1 || may_separate(path[i - 2])))
    &&& forall|j: int| i < j < path.len() ==> !may_separate(#[trigger] path[j])
}

/// However the system reads the path, it ends in a name without a dot.
pub open spec fn has_no_extension(path: Seq<char>) -> bool {
    &&& path.len() > 0 && !may_separate(path.last())
    &&& !after_slash(path).contains('.')
}

/// `bare` is the path without its extension.
pub open spec fn is_bare(bare: Seq<char>, path: Seq<char>) -> bool {
    &&& bare.is_prefix_of(path)
    &&& has_extension(path) ==> bare == path.take(last_dot(path))
    &&& has_no_extension(path) ==> bare == path
}

/// `Path::with_extension`, with an empty one: the path, up to where its extension
/// begins. An extension is what follows the last dot of the last component, the
/// dot included, unless that is the first character of the component; a path
/// without one is left as it is. Where the component begins is up to the system,
/// so this is said of paths that end in the same name everywhere.
#[verifier::external_body]
pub(crate) fn without_extension(path: &str) -> (r: String)
    ensures
        is_bare(r@, path@),
{
    Path::new(path).with_extension("").to_string_lossy().to_string()
}

/// What follows a dot and holds none has it for its last.
pub proof fn lemma_last_dot(base: Seq<char>, ext: Seq<char>)
    requires
        forall|j: int| 0 <= j < ext.len() ==> #[trigger] ext[j] != '.',
    ensures
        last_dot(base + seq!['.'] + ext) == base.len(),
    decreases ext.len(),
{
    let s = base + seq!['.'] + ext;
    if ext.len() > 0 {
        assert(s.last() == ext[ext.len() - 1]);
        assert(s.drop_last() =~= base + seq!['.'] + ext.drop_last());
        lemma_last_dot(base, ext.drop_last());
    } else {
        assert(s.last() == '.');
    }
}

}
