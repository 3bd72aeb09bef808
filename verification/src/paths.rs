//! The directory layout of the workspace.
use vstd::prelude::*;

use crate::fields::optional_part;

verus! {

// ---------------------------------------------------------------------------
// The model
// ---------------------------------------------------------------------------

/// A name that every platform reads as one name of a path: not empty, not `.`,
/// and without a separator or a colon.
pub open spec fn plain_name(n: Seq<char>) -> bool {
    &&& n.len() > 0
    &&& n != seq!['.']
    &&& forall|i: int|
        0 <= i < n.len() ==> #[trigger] n[i] != '/' && n[i] != '\\' && n[i] != ':'
}

/// Every name is plain.
pub open spec fn plain_names(names: Seq<Seq<char>>) -> bool {
    forall|i: int| 0 <= i < names.len() ==> plain_name(#[trigger] names[i])
}

/// The names with the separator between them.
pub open spec fn separated(separator: char, names: Seq<Seq<char>>) -> Seq<char>
    decreases names.len(),
{
    if names.len() == 0 {
        Seq::empty()
    } else if names.len() == 1 {
        names[0]
    } else {
        separated(separator, names.drop_last()) + seq![separator] + names.last()
    }
}

/// A path of names behind `/`: from the root, or relative.
pub open spec fn slash_path(rooted: bool, names: Seq<Seq<char>>) -> Seq<char> {
    (if rooted { seq!['/'] } else { Seq::empty() }) + separated('/', names)
}

/// A path of names behind `\`, from the root of a drive.
pub open spec fn drive_path(drive: char, names: Seq<Seq<char>>) -> Seq<char> {
    seq![drive, ':', '\\'] + separated('\\', names)
}

/// The character names a drive.
pub open spec fn is_drive(c: char) -> bool {
    'a' <= c <= 'z' || 'A' <= c <= 'Z'
}

/// `p` is what can be left of a path of which at least `n` characters are cut
/// off at the end.
pub open spec fn cut_short(path: Seq<char>, p: Seq<char>, n: int) -> bool {
    p.is_prefix_of(path) && p.len() + n <= path.len()
}

/// What can be the parent of a path. A path of plain names behind `/` reads
/// alike on every platform. A path on a drive is one where the platform knows
/// drives, and a single name elsewhere.
pub open spec fn is_parent(path: Seq<char>, r: Option<Seq<char>>) -> bool {
    &&& r matches Some(p) ==> cut_short(path, p, 1)
    &&& forall|rooted: bool, names: Seq<Seq<char>>|
        plain_names(names) && path == #[trigger] slash_path(rooted, names) ==> r == (
        if names.len() > 0 {
            Some(slash_path(rooted, names.drop_last()))
        } else {
            None
        })
    &&& forall|drive: char, names: Seq<Seq<char>>|
        is_drive(drive) && plain_names(names) && path == #[trigger] drive_path(drive, names)
            ==> r == Some(Seq::<char>::empty()) || r == (if names.len() > 0 {
            Some(drive_path(drive, names.drop_last()))
        } else {
            None
        })
}

/// What can be the workspace of a package, given the directory of the package:
/// the parent of the parent. On a drive it is two names shorter; where the
/// platform knows no drives, there is the empty path or nothing.
pub open spec fn is_workspace(path: Seq<char>, r: Option<Seq<char>>) -> bool {
    &&& r matches Some(p) ==> cut_short(path, p, 2)
    &&& forall|rooted: bool, names: Seq<Seq<char>>|
        plain_names(names) && path == #[trigger] slash_path(rooted, names) ==> r == (
        if names.len() > 1 {
            Some(slash_path(rooted, names.drop_last().drop_last()))
        } else {
            None
        })
    &&& forall|drive: char, names: Seq<Seq<char>>|
        is_drive(drive) && plain_names(names) && path == #[trigger] drive_path(drive, names)
            ==> r is None || r == Some(Seq::<char>::empty()) || (names.len() > 1 && r == Some(
            drive_path(drive, names.drop_last().drop_last()),
        ))
}

// ---------------------------------------------------------------------------
// The code
// ---------------------------------------------------------------------------

/// std's `Path::parent`, on a path that is a string: the path without its last
/// name.
///
/// Claimed of every platform: what comes back is a shorter start of the path;
/// of plain names behind `/` the last one is taken off, with its separator;
/// and there is nothing above the root and the empty path. A path on a drive is
/// claimed to lose its last name where the platform knows drives, and to be a
/// single name, whose parent is the empty path, where it does not. Which
/// platform it is, and how paths in other forms are read (repeated separators,
/// `.` names, network shares), is left unsaid.
#[verifier::external_body]
fn path_parent(path: &str) -> (r: Option<&str>)
    ensures
        is_parent(path@, optional_part(r)),
{
    std::path::Path::new(path).parent().and_then(|p| p.to_str())
}

/// The root of the workspace, two levels above the directory of a package.
pub fn workspace_root(manifest_dir: &str) -> (r: Option<String>)
    ensures
        match r {
            Some(p) => is_workspace(manifest_dir@, Some(p@)),
            None => is_workspace(manifest_dir@, None),
        },
{
    let first = path_parent(manifest_dir);
    let second = match first {
        Some(p) => path_parent(p),
        None => None,
    };
    proof {
        lemma_parent_of_parent(manifest_dir@, optional_part(first), optional_part(second));
    }
    match second {
        Some(p) => Some(p.to_owned()),
        None => None,
    }
}

// ---------------------------------------------------------------------------
// Laws
// ---------------------------------------------------------------------------

/// The parent of the parent is the workspace.
proof fn lemma_parent_of_parent(
    path: Seq<char>,
    first: Option<Seq<char>>,
    second: Option<Seq<char>>,
)
    requires
        is_parent(path, first),
        first matches Some(p) ==> is_parent(p, second),
        first is None ==> second is None,
    ensures
        is_workspace(path, second),
{
    if first is Some && second is Some {
        let p = first->0;
        let q = second->0;
        assert(q =~= path.take(q.len() as int)) by {
            assert(p == path.take(p.len() as int));
            assert(q == p.take(q.len() as int));
        }
    }
    assert forall|rooted: bool, names: Seq<Seq<char>>|
        plain_names(names) && path == #[trigger] slash_path(rooted, names) implies second == (
    if names.len() > 1 {
        Some(slash_path(rooted, names.drop_last().drop_last()))
    } else {
        None
    }) by {
        if names.len() > 0 {
            assert(first == Some(slash_path(rooted, names.drop_last())));
            assert(plain_names(names.drop_last()));
        }
    }
    assert forall|drive: char, names: Seq<Seq<char>>|
        is_drive(drive) && plain_names(names) && path == #[trigger] drive_path(
            drive,
            names,
        ) implies second is None || second == Some(Seq::<char>::empty()) || (names.len() > 1
        && second == Some(drive_path(drive, names.drop_last().drop_last()))) by {
        let none: Seq<Seq<char>> = Seq::empty();
        assert(slash_path(false, none) =~= Seq::empty());
        assert(plain_names(none));
        if names.len() > 0 {
            assert(plain_names(names.drop_last()));
        }
    }
}

/// A package two levels below a directory, from the root or relative, has that
/// directory as its workspace.
pub proof fn law_workspace_of_package(
    rooted: bool,
    dir: Seq<Seq<char>>,
    group: Seq<char>,
    package: Seq<char>,
    r: Option<Seq<char>>,
)
    requires
        plain_names(dir),
        plain_name(group),
        plain_name(package),
        is_workspace(slash_path(rooted, dir.push(group).push(package)), r),
    ensures
        r == Some(slash_path(rooted, dir)),
{
    let names = dir.push(group).push(package);
    assert(plain_names(names));
    assert(names.drop_last().drop_last() =~= dir);
}

/// On a drive the workspace of a package is the directory two levels above it;
/// only the empty path or nothing can take its place, where the platform knows
/// no drives.
pub proof fn law_workspace_on_a_drive(
    drive: char,
    dir: Seq<Seq<char>>,
    group: Seq<char>,
    package: Seq<char>,
    r: Option<Seq<char>>,
)
    requires
        is_drive(drive),
        plain_names(dir),
        plain_name(group),
        plain_name(package),
        is_workspace(drive_path(drive, dir.push(group).push(package)), r),
    ensures
        r == Some(drive_path(drive, dir)) || r == Some(Seq::<char>::empty()) || r is None,
{
    let names = dir.push(group).push(package);
    assert(plain_names(names));
    assert(names.drop_last().drop_last() =~= dir);
}

} // verus!
