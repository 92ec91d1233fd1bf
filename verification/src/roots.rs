//! Where descriptors are searched for, and how a descriptor gets its id.
//!
//! The search roots come as one list, separated by colons. Each root holds
//! its descriptors below a directory named `applications`. A descriptor's id
//! is its path below that directory with the separators flattened to dashes.

use vstd::prelude::*;
use crate::text::{chars_of, string_of};

verus! {

/// Separates the roots of a path list.
pub const LIST_SEPARATOR: char = ':';

/// Separates the components of a path.
pub const PATH_SEPARATOR: char = '/';

/// Stands in for a path separator in an id.
pub const ID_SEPARATOR: char = '-';

/// The pieces of `list` between its colons, in order. A list with `n` colons
/// has `n + 1` pieces, some of which may be empty.
pub open spec fn split_list(list: Seq<char>) -> Seq<Seq<char>>
    decreases list.len(),
{
    if list.len() == 0 {
        seq![Seq::<char>::empty()]
    } else {
        let before = split_list(list.drop_last());
        if list.last() == LIST_SEPARATOR {
            before.push(Seq::<char>::empty())
        } else {
            before.update(before.len() - 1, before.last().push(list.last()))
        }
    }
}

/// The name of the directory that holds a root's descriptors.
pub open spec fn applications() -> Seq<char> {
    seq!['a', 'p', 'p', 'l', 'i', 'c', 'a', 't', 'i', 'o', 'n', 's']
}

/// The list used where the environment gives none:
/// `/usr/local/share/:/usr/share/`.
pub open spec fn default_list() -> Seq<char> {
    seq![
        '/', 'u', 's', 'r', '/', 'l', 'o', 'c', 'a', 'l', '/', 's', 'h', 'a', 'r', 'e', '/', ':',
        '/', 'u', 's', 'r', '/', 's', 'h', 'a', 'r', 'e', '/',
    ]
}

/// `root` joined with `applications`: a separator goes between the two
/// unless `root` is empty or already ends in one.
pub open spec fn applications_dir(root: Seq<char>) -> Seq<char> {
    if root.len() == 0 || root.last() == PATH_SEPARATOR {
        root + applications()
    } else {
        root.push(PATH_SEPARATOR) + applications()
    }
}

/// The directories to search, one per root of `list`.
pub open spec fn search_dirs_of(list: Seq<char>) -> Seq<Seq<char>> {
    split_list(list).map_values(|root: Seq<char>| applications_dir(root))
}

/// `path` with every path separator replaced by a dash.
pub open spec fn flattened(path: Seq<char>) -> Seq<char> {
    Seq::new(
        path.len(),
        |i: int|
            if path[i] == PATH_SEPARATOR {
                ID_SEPARATOR
            } else {
                path[i]
            },
    )
}

/// The characters of each string of `v`.
pub open spec fn views(v: Seq<String>) -> Seq<Seq<char>> {
    v.map_values(|s: String| s@)
}

/// The id of the descriptor at `relative`, its path below the directory that
/// was searched.
pub fn entry_id(relative: &str) -> (id: String)
    ensures
        id@ == flattened(relative@),
{
    let path: Vec<char> = chars_of(relative);
    let mut out: Vec<char> = Vec::new();
    let mut i: usize = 0;
    while i < path.len()
        invariant
            i <= path.len(),
            out@ == flattened(path@).take(i as int),
        decreases path.len() - i,
    {
        if path[i] == PATH_SEPARATOR {
            out.push(ID_SEPARATOR);
        } else {
            out.push(path[i]);
        }
        assert(out@ == flattened(path@).take(i + 1));
        i += 1;
    }
    assert(out@ == flattened(path@));
    string_of(&out)
}

/// Joins one root with the directory name `applications`.
fn join_applications(root: &Vec<char>) -> (dir: String)
    ensures
        dir@ == applications_dir(root@),
{
    let mut out: Vec<char> = root.clone();
    if root.len() > 0 && root[root.len() - 1] != PATH_SEPARATOR {
        out.push(PATH_SEPARATOR);
    }
    let name: Vec<char> = vec!['a', 'p', 'p', 'l', 'i', 'c', 'a', 't', 'i', 'o', 'n', 's'];
    assert(name@ == applications());
    let ghost prefix = out@;
    let mut i: usize = 0;
    while i < name.len()
        invariant
            i <= name.len(),
            out@ == prefix + name@.take(i as int),
        decreases name.len() - i,
    {
        out.push(name[i]);
        assert(name@.take(i + 1) == name@.take(i as int).push(name@[i as int]));
        i += 1;
    }
    assert(name@.take(name.len() as int) == name@);
    string_of(&out)
}

/// The directories to search for descriptors, given the path list of the
/// environment, or `None` where it has none and the default list applies.
pub fn search_dirs(path_list: Option<&str>) -> (dirs: Vec<String>)
    ensures
        views(dirs@) == search_dirs_of(
            match path_list {
                Some(list) => list@,
                None => default_list(),
            },
        ),
{
    let list: Vec<char> = match path_list {
        Some(given) => chars_of(given),
        None => {
            let fallback: Vec<char> = vec![
                '/', 'u', 's', 'r', '/', 'l', 'o', 'c', 'a', 'l', '/', 's', 'h', 'a', 'r', 'e',
                '/', ':', '/', 'u', 's', 'r', '/', 's', 'h', 'a', 'r', 'e', '/',
            ];
            assert(fallback@ == default_list());
            fallback
        },
    };
    let mut dirs: Vec<String> = Vec::new();
    let mut root: Vec<char> = Vec::new();
    let mut i: usize = 0;
    assert(list@.take(0) == Seq::<char>::empty());
    assert(split_list(list@.take(0)) == seq![Seq::<char>::empty()]);
    while i < list.len()
        invariant
            i <= list.len(),
            split_list(list@.take(i as int)).len() == dirs.len() + 1,
            split_list(list@.take(i as int)).last() == root@,
            forall|k: int|
                0 <= k < dirs.len() ==> (#[trigger] dirs@[k])@ == applications_dir(
                    split_list(list@.take(i as int))[k],
                ),
        decreases list.len() - i,
    {
        let ghost before = split_list(list@.take(i as int));
        assert(list@.take(i + 1).drop_last() == list@.take(i as int));
        if list[i] == LIST_SEPARATOR {
            let dir: String = join_applications(&root);
            dirs.push(dir);
            root = Vec::new();
        } else {
            root.push(list[i]);
        }
        i += 1;
    }
    assert(list@.take(list.len() as int) == list@);
    let dir: String = join_applications(&root);
    dirs.push(dir);
    assert(views(dirs@) =~= search_dirs_of(list@));
    dirs
}

} // verus!
