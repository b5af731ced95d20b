use vstd::prelude::*;
use vstd::string::StringExecFns;

use crate::error::ArchiveError;
use crate::paths::base_name;
use crate::paths::base_name_of;
use crate::paths::join_path;
use crate::paths::joined;

verus! {

/// A path still to be visited: where it stands on disk and the name it has
/// inside the archive.
#[derive(Debug)]
pub struct PendingPath {
    pub source: String,
    pub relative: String,
}

/// What was found on disk at the path that is next to be visited.
pub enum Found {
    /// A directory, with the names of what it holds.
    Directory(Vec<String>),
    /// A directory that holds a name which is not valid UTF-8.
    Unnameable,
    /// A regular file.
    File,
    /// Nothing, or something that is neither.
    Other,
}

/// What the caller does after a step of the build.
pub enum BuildAction {
    /// Write the file at `source` into the archive under `relative`.
    Store(PendingPath),
    /// Nothing to write for this path.
    Nothing,
    /// No path is left: close the archive.
    Finished,
}

/// The paths still to be visited by a build. The last one is visited next.
pub struct BuildPlan {
    pending: Vec<PendingPath>,
}

/// A pending path as a pair of texts: source, then name inside the archive.
pub open spec fn pair_of(path: PendingPath) -> (Seq<char>, Seq<char>) {
    (path.source@, path.relative@)
}

/// The pending paths as pairs of texts.
pub open spec fn pairs_of(paths: Seq<PendingPath>) -> Seq<(Seq<char>, Seq<char>)> {
    Seq::new(paths.len(), |i: int| pair_of(paths[i]))
}

/// The texts of a list of names.
pub open spec fn texts_of(names: Seq<String>) -> Seq<Seq<char>> {
    Seq::new(names.len(), |i: int| names[i]@)
}

/// What a directory adds to the pending paths: each child, joined to the
/// directory's source and to its name inside the archive.
pub open spec fn children_of(parent: (Seq<char>, Seq<char>), names: Seq<Seq<char>>) -> Seq<
    (Seq<char>, Seq<char>),
> {
    Seq::new(names.len(), |i: int| (joined(parent.0, names[i]), joined(parent.1, names[i])))
}

/// The pending paths of a build from a list: each listed path under its
/// base name.
pub open spec fn listed_pairs(paths: Seq<String>) -> Seq<(Seq<char>, Seq<char>)> {
    Seq::new(paths.len(), |i: int| (paths[i]@, base_name_of(paths[i]@)->Some_0))
}

/// Whether every listed path below `upto` has a base name.
pub open spec fn all_named(paths: Seq<String>, upto: int) -> bool {
    forall|i: int| 0 <= i < upto ==> (#[trigger] base_name_of(paths[i]@)) is Some
}

/// Whether `r` and `after` are owed for a step from `before` on `found`.
pub open spec fn step_result(
    before: Seq<(Seq<char>, Seq<char>)>,
    found: Found,
    r: Result<BuildAction, ArchiveError>,
    after: Seq<(Seq<char>, Seq<char>)>,
) -> bool {
    if before.len() == 0 {
        r matches Ok(BuildAction::Finished) && after == before
    } else {
        let item = before.last();
        let rest = before.drop_last();
        match found {
            Found::Directory(names) => {
                &&& r matches Ok(BuildAction::Nothing)
                &&& after == rest + children_of(item, texts_of(names@))
            },
            Found::Unnameable => {
                &&& after == rest
                &&& r matches Err(ArchiveError::NonUtf8Path)
            },
            Found::File => {
                &&& after == rest
                &&& if item.1.len() == 0 {
                    r matches Err(ArchiveError::Io)
                } else {
                    r matches Ok(BuildAction::Store(path)) && pair_of(path) == item
                }
            },
            Found::Other => {
                &&& after == rest
                &&& if item.1.len() == 0 {
                    r matches Err(ArchiveError::Io)
                } else {
                    r matches Ok(BuildAction::Nothing)
                }
            },
        }
    }
}

/// Whether every pending path has a name inside the archive.
pub open spec fn all_relative(pairs: Seq<(Seq<char>, Seq<char>)>) -> bool {
    forall|i: int| 0 <= i < pairs.len() ==> (#[trigger] pairs[i]).1.len() > 0
}

impl BuildPlan {
    /// The pending paths, the next one last.
    pub closed spec fn view(&self) -> Seq<(Seq<char>, Seq<char>)> {
        pairs_of(self.pending@)
    }

    /// The path to look at next, if one is left.
    pub fn next_path(&self) -> (r: Option<&PendingPath>)
        ensures
            r is Some <==> self@.len() > 0,
            r is Some ==> pair_of(*r->Some_0) == self@.last(),
    {
        let count: usize = self.pending.len();
        if count == 0 {
            None
        } else {
            Some(&self.pending[count - 1])
        }
    }

    /// Takes the next path off the plan and decides, from what was found
    /// there, what is to be done: a directory puts its children on the plan,
    /// a regular file is to be stored, anything else is passed over. A
    /// directory with a name in it that is not valid UTF-8 ends the build,
    /// since archive names are text. The root of a folder build, which has no
    /// name inside the archive, must be a directory.
    pub fn advance(&mut self, found: Found) -> (r: Result<BuildAction, ArchiveError>)
        ensures
            step_result(old(self)@, found, r, final(self)@),
    {
        let ghost before = self@;
        let item = match self.pending.pop() {
            Some(item) => item,
            None => {
                return Ok(BuildAction::Finished);
            },
        };
        let ghost rest = self@;
        assert(rest =~= before.drop_last());
        assert(pair_of(item) == before.last());
        match found {
            Found::Directory(names) => {
                let mut i: usize = 0;
                while i < names.len()
                    invariant
                        i <= names@.len(),
                        self@ =~= rest + children_of(pair_of(item), texts_of(names@)).take(
                            i as int,
                        ),
                    decreases names@.len() - i,
                {
                    let ghost sofar = self@;
                    let child = PendingPath {
                        source: join_path(item.source.as_str(), names[i].as_str()),
                        relative: join_path(item.relative.as_str(), names[i].as_str()),
                    };
                    self.pending.push(child);
                    proof {
                        let all = children_of(pair_of(item), texts_of(names@));
                        assert(pair_of(child) == all[i as int]);
                        assert(self@ =~= sofar.push(pair_of(child)));
                        assert(all.take(i + 1) =~= all.take(i as int).push(all[i as int]));
                    }
                    i += 1;
                }
                proof {
                    let all = children_of(pair_of(item), texts_of(names@));
                    assert(all.take(i as int) =~= all);
                }
                Ok(BuildAction::Nothing)
            },
            Found::Unnameable => Err(ArchiveError::NonUtf8Path),
            Found::File => {
                if item.relative.as_str().unicode_len() == 0 {
                    Err(ArchiveError::Io)
                } else {
                    Ok(BuildAction::Store(item))
                }
            },
            Found::Other => {
                if item.relative.as_str().unicode_len() == 0 {
                    Err(ArchiveError::Io)
                } else {
                    Ok(BuildAction::Nothing)
                }
            },
        }
    }
}

/// Begins the build of an archive from a folder: the folder itself is the
/// one pending path, with an empty name inside the archive, so that what it
/// holds is named relative to it. Where the archive to build already exists
/// nothing is begun.
pub fn create_zip_from_folder(output_exists: bool, folder_path: String) -> (r: Result<
    BuildPlan,
    ArchiveError,
>)
    ensures
        output_exists ==> (r matches Err(ArchiveError::OutputAlreadyExists)),
        !output_exists ==> r is Ok && r->Ok_0@ == seq![(folder_path@, Seq::<char>::empty())],
{
    if output_exists {
        return Err(ArchiveError::OutputAlreadyExists);
    }
    let mut pending: Vec<PendingPath> = Vec::new();
    pending.push(PendingPath { source: folder_path, relative: String::new() });
    let plan = BuildPlan { pending };
    assert(plan@ =~= seq![(folder_path@, Seq::<char>::empty())]);
    Ok(plan)
}

/// Begins the build of an archive from a list of files and directories:
/// each listed path is pending under its base name. Where the archive to
/// build already exists, or a listed path has no base name, nothing is
/// begun.
pub fn create_zip_from_files(output_exists: bool, files_path: Vec<String>) -> (r: Result<
    BuildPlan,
    ArchiveError,
>)
    ensures
        output_exists ==> (r matches Err(ArchiveError::OutputAlreadyExists)),
        !output_exists && all_named(files_path@, files_path@.len() as int) ==> r is Ok && r->Ok_0@
            == listed_pairs(files_path@),
        !output_exists && !all_named(files_path@, files_path@.len() as int) ==> (r matches Err(
            ArchiveError::InvalidEntryPath,
        )),
{
    if output_exists {
        return Err(ArchiveError::OutputAlreadyExists);
    }
    let mut plan = BuildPlan { pending: Vec::new() };
    let mut i: usize = 0;
    while i < files_path.len()
        invariant
            !output_exists,
            i <= files_path@.len(),
            all_named(files_path@, i as int),
            plan@ =~= listed_pairs(files_path@).take(i as int),
        decreases files_path@.len() - i,
    {
        let ghost sofar = plan@;
        match base_name(files_path[i].as_str()) {
            Some(relative) => {
                let path = PendingPath { source: files_path[i].clone(), relative };
                plan.pending.push(path);
                proof {
                    let all = listed_pairs(files_path@);
                    assert(pair_of(path) == all[i as int]);
                    assert(plan@ =~= sofar.push(pair_of(path)));
                    assert(all.take(i + 1) =~= all.take(i as int).push(all[i as int]));
                }
            },
            None => {
                assert(base_name_of(files_path@[i as int]@) is None);
                return Err(ArchiveError::InvalidEntryPath);
            },
        }
        i += 1;
    }
    proof {
        let all = listed_pairs(files_path@);
        assert(all.take(i as int) =~= all);
    }
    Ok(plan)
}

/// A build from a list starts with every pending path named.
pub proof fn listed_paths_are_named(paths: Seq<String>)
    requires
        all_named(paths, paths.len() as int),
    ensures
        all_relative(listed_pairs(paths)),
{
    assert forall|i: int| 0 <= i < paths.len() implies (#[trigger] listed_pairs(paths)[i]).1.len()
        > 0 by {
        assert(base_name_of(paths[i]@) is Some);
    }
}

/// Once every pending path is named, every step keeps it so: no step then
/// fails for want of a directory at the root, and whatever is stored is
/// stored under a name that is not empty.
pub proof fn named_paths_stay_named(
    before: Seq<(Seq<char>, Seq<char>)>,
    found: Found,
    r: Result<BuildAction, ArchiveError>,
    after: Seq<(Seq<char>, Seq<char>)>,
)
    requires
        step_result(before, found, r, after),
        all_relative(before),
    ensures
        all_relative(after),
        !(r matches Err(ArchiveError::Io)),
        r matches Ok(BuildAction::Store(path)) ==> path.relative@.len() > 0,
{
    if before.len() > 0 {
        let item = before.last();
        let rest = before.drop_last();
        assert(item.1.len() > 0);
        assert forall|i: int| 0 <= i < rest.len() implies (#[trigger] rest[i]).1.len() > 0 by {
            assert(rest[i] == before[i]);
        }
        match found {
            Found::Directory(names) => {
                let children = children_of(item, texts_of(names@));
                assert forall|i: int| 0 <= i < after.len() implies (#[trigger] after[i]).1.len()
                    > 0 by {
                    if i < rest.len() {
                        assert(after[i] == rest[i]);
                    } else {
                        assert(after[i] == children[i - rest.len()]);
                    }
                }
            },
            _ => {},
        }
    }
}

} // verus!
