//! Resolving root paths into the tabular files they stand for.
//!
//! The disk is not read here. Callers describe what they found at each root
//! as an [`FsEntry`], a snapshot taken once at the start of an operation,
//! and the functions below decide which files of the snapshot are inputs.

use crate::error::{fault, ErrorKind, TblError};
use crate::paths::{is_tabular, is_tabular_file, texts};
use vstd::prelude::*;

verus! {

/// What kind of thing was found at a path.
#[derive(Debug, Clone, Copy, PartialEq, Eq, Structural)]
pub enum EntryKind {
    /// A regular file.
    File,
    /// A directory whose entries could be listed.
    Directory,
    /// Something that is neither a regular file nor a directory, such as a
    /// socket or a link that leads nowhere.
    Other,
    /// A path at which nothing was found, or a directory whose entries
    /// could not be listed.
    Unreadable,
}

/// One observed path with, for a directory, the entries observed in it.
///
/// For a walk of a whole tree the snapshot has to reach every depth; for a
/// listing of direct children one level is enough. `children` is only
/// looked at for directories.
///
/// One rule holds for every entry that is looked at, root or not, walked
/// or listed: an unreadable entry makes the call fail, and an entry that
/// is neither a regular file nor a directory is passed over.
#[derive(Debug)]
pub struct FsEntry {
    pub path: String,
    pub kind: EntryKind,
    pub children: Vec<FsEntry>,
}

/// The paths of the tabular files among the first `upto` of `entries`, in
/// the order of the entries; or the path of the first entry among them that
/// could not be read. Directories are not entered.
pub open spec fn direct_files(entries: Seq<FsEntry>, upto: nat) -> Result<
    Seq<Seq<char>>,
    Seq<char>,
>
    decreases upto,
{
    if upto == 0 || upto > entries.len() {
        Ok(Seq::empty())
    } else {
        match direct_files(entries, (upto - 1) as nat) {
            Err(path) => Err(path),
            Ok(before) => {
                let entry = entries[upto - 1];
                match entry.kind {
                    EntryKind::File => if is_tabular(entry.path@) {
                        Ok(before.push(entry.path@))
                    } else {
                        Ok(before)
                    },
                    EntryKind::Directory => Ok(before),
                    EntryKind::Other => Ok(before),
                    EntryKind::Unreadable => Err(entry.path@),
                }
            },
        }
    }
}

/// Once a listing has met an unreadable entry, looking at further entries
/// reports that same entry.
pub proof fn lemma_listing_failure_stays(entries: Seq<FsEntry>, upto: nat, later: nat)
    requires
        direct_files(entries, upto) is Err,
        upto <= later <= entries.len(),
    ensures
        direct_files(entries, later) == direct_files(entries, upto),
    decreases later,
{
    if later > upto {
        lemma_listing_failure_stays(entries, upto, (later - 1) as nat);
    }
}

/// The tabular files directly inside `dir`, or the path that could not be
/// read: `dir` itself when it is not a readable directory, else the first
/// unreadable entry in it.
pub open spec fn directory_listing(dir: FsEntry) -> Result<Seq<Seq<char>>, Seq<char>> {
    if dir.kind == EntryKind::Directory {
        direct_files(dir.children@, dir.children.len() as nat)
    } else {
        Err(dir.path@)
    }
}

/// The tabular files found by walking the first `upto` entries of the
/// directory `dir` depth first, each sub-directory in place; or the path of
/// the first entry met that could not be read.
pub open spec fn tree_walk(dir: FsEntry, upto: nat) -> Result<Seq<Seq<char>>, Seq<char>>
    decreases dir, upto,
{
    if upto == 0 || upto > dir.children.len() {
        Ok(Seq::empty())
    } else {
        match tree_walk(dir, (upto - 1) as nat) {
            Err(path) => Err(path),
            Ok(before) => {
                let entry = dir.children@[upto - 1];
                match entry.kind {
                    EntryKind::File => if is_tabular(entry.path@) {
                        Ok(before.push(entry.path@))
                    } else {
                        Ok(before)
                    },
                    EntryKind::Directory => match tree_walk(entry, entry.children.len() as nat) {
                        Ok(inside) => Ok(before + inside),
                        Err(path) => Err(path),
                    },
                    EntryKind::Other => Ok(before),
                    EntryKind::Unreadable => Err(entry.path@),
                }
            },
        }
    }
}

/// The tabular files at any depth inside `dir`, or the path that could not
/// be read: `dir` itself when it is not a readable directory, else the
/// first unreadable entry met on the walk.
pub open spec fn tree_listing(dir: FsEntry) -> Result<Seq<Seq<char>>, Seq<char>> {
    if dir.kind == EntryKind::Directory {
        tree_walk(dir, dir.children.len() as nat)
    } else {
        Err(dir.path@)
    }
}

/// Returns the tabular files directly inside `dir`, in the order of the
/// snapshot. Sub-directories are not entered.
///
/// Fails with an `IOError` naming the path that could not be read: `dir`
/// itself when it is not a readable directory, else the first unreadable
/// entry in it.
pub fn get_directory_tabular_files(dir: &FsEntry) -> (out: Result<Vec<String>, TblError>)
    ensures
        match out {
            Ok(files) => directory_listing(*dir) == Ok::<_, Seq<char>>(texts(files@)),
            Err(e) => directory_listing(*dir) is Err && e@ == fault(
                ErrorKind::IO,
                directory_listing(*dir)->Err_0,
            ),
        },
{
    match dir.kind {
        EntryKind::Directory => {},
        _ => {
            return Err(TblError::IOError(dir.path.clone()));
        },
    }
    let mut files: Vec<String> = Vec::new();
    let ghost mut found: Seq<Seq<char>> = Seq::empty();
    let mut i: usize = 0;
    while i < dir.children.len()
        invariant
            0 <= i <= dir.children.len(),
            dir.kind == EntryKind::Directory,
            direct_files(dir.children@, i as nat) == Ok::<_, Seq<char>>(found),
            texts(files@) =~= found,
        decreases dir.children.len() - i,
    {
        let entry = &dir.children[i];
        match entry.kind {
            EntryKind::File => {
                if is_tabular_file(entry.path.as_str()) {
                    files.push(entry.path.clone());
                    proof {
                        found = found.push(entry.path@);
                    }
                }
            },
            EntryKind::Directory => {},
            EntryKind::Other => {},
            EntryKind::Unreadable => {
                proof {
                    lemma_listing_failure_stays(
                        dir.children@,
                        (i + 1) as nat,
                        dir.children.len() as nat,
                    );
                }
                return Err(TblError::IOError(entry.path.clone()));
            },
        }
        i += 1;
    }
    assert(texts(files@) == found);
    Ok(files)
}

/// Once a walk has met an unreadable entry, walking further entries of the
/// same directory reports that same entry.
pub proof fn lemma_tree_walk_failure_stays(dir: FsEntry, upto: nat, later: nat)
    requires
        tree_walk(dir, upto) is Err,
        upto <= later <= dir.children.len(),
    ensures
        tree_walk(dir, later) == tree_walk(dir, upto),
    decreases later,
{
    if later > upto {
        lemma_tree_walk_failure_stays(dir, upto, (later - 1) as nat);
    }
}

/// Once resolution has met an unreadable path, resolving further roots
/// reports that same path.
pub proof fn lemma_resolution_failure_stays(roots: Seq<FsEntry>, tree: bool, upto: nat, later: nat)
    requires
        resolved_inputs(roots, tree, upto) is Err,
        upto <= later <= roots.len(),
    ensures
        resolved_inputs(roots, tree, later) == resolved_inputs(roots, tree, upto),
    decreases later,
{
    if later > upto {
        lemma_resolution_failure_stays(roots, tree, upto, (later - 1) as nat);
    }
}

/// Gets the tabular files at any depth inside `dir`, depth first, each
/// sub-directory walked in place of its entry.
///
/// Fails with an `IOError` naming the path that could not be
/// read: `dir` itself when it is not a readable directory, else the first
/// unreadable entry met on the walk.
pub fn get_tree_tabular_files(dir: &FsEntry) -> (out: Result<Vec<String>, TblError>)
    ensures
        match out {
            Ok(files) => tree_listing(*dir) == Ok::<_, Seq<char>>(texts(files@)),
            Err(e) => tree_listing(*dir) is Err && e@ == fault(
                ErrorKind::IO,
                tree_listing(*dir)->Err_0,
            ),
        },
    decreases dir,
{
    match dir.kind {
        EntryKind::Directory => {},
        _ => {
            return Err(TblError::IOError(dir.path.clone()));
        },
    }
    let mut files: Vec<String> = Vec::new();
    let ghost mut found: Seq<Seq<char>> = Seq::empty();
    let mut i: usize = 0;
    while i < dir.children.len()
        invariant
            0 <= i <= dir.children.len(),
            dir.kind == EntryKind::Directory,
            tree_walk(*dir, i as nat) == Ok::<_, Seq<char>>(found),
            texts(files@) =~= found,
        decreases dir.children.len() - i,
    {
        let entry = &dir.children[i];
        match entry.kind {
            EntryKind::File => {
                if is_tabular_file(entry.path.as_str()) {
                    files.push(entry.path.clone());
                    proof {
                        found = found.push(entry.path@);
                    }
                }
            },
            EntryKind::Directory => {
                match get_tree_tabular_files(entry) {
                    Ok(mut inside) => {
                        proof {
                            found = found + texts(inside@);
                        }
                        files.append(&mut inside);
                    },
                    Err(e) => {
                        proof {
                            lemma_tree_walk_failure_stays(
                                *dir,
                                (i + 1) as nat,
                                dir.children.len() as nat,
                            );
                        }
                        return Err(e);
                    },
                }
            },
            EntryKind::Other => {},
            EntryKind::Unreadable => {
                proof {
                    lemma_tree_walk_failure_stays(
                        *dir,
                        (i + 1) as nat,
                        dir.children.len() as nat,
                    );
                }
                return Err(TblError::IOError(entry.path.clone()));
            },
        }
        i += 1;
    }
    assert(texts(files@) == found);
    Ok(files)
}

/// The files that one root contributes to the inputs, or the path that
/// could not be read.
///
/// A directory contributes its tabular files, at any depth when `tree` is
/// set and else its direct children; a regular file contributes itself when
/// it has the tabular extension and nothing otherwise; anything else cannot
/// be read.
pub open spec fn root_inputs(root: FsEntry, tree: bool) -> Result<Seq<Seq<char>>, Seq<char>> {
    match root.kind {
        EntryKind::Directory => if tree {
            tree_listing(root)
        } else {
            directory_listing(root)
        },
        EntryKind::File => if is_tabular(root.path@) {
            Ok(seq![root.path@])
        } else {
            Ok(Seq::empty())
        },
        _ => Err(root.path@),
    }
}

/// The files that the first `upto` roots contribute, root after root, or
/// the first path that could not be read.
pub open spec fn resolved_inputs(roots: Seq<FsEntry>, tree: bool, upto: nat) -> Result<
    Seq<Seq<char>>,
    Seq<char>,
>
    decreases upto,
{
    if upto == 0 || upto > roots.len() {
        Ok(Seq::empty())
    } else {
        match resolved_inputs(roots, tree, (upto - 1) as nat) {
            Err(path) => Err(path),
            Ok(before) => match root_inputs(roots[upto - 1], tree) {
                Ok(found) => Ok(before + found),
                Err(path) => Err(path),
            },
        }
    }
}

/// The regular files among the first `upto` roots that lack the tabular
/// extension, in the order of the roots.
pub open spec fn skipped_among(roots: Seq<FsEntry>, upto: nat) -> Seq<Seq<char>>
    decreases upto,
{
    if upto == 0 || upto > roots.len() {
        Seq::empty()
    } else {
        let before = skipped_among(roots, (upto - 1) as nat);
        let root = roots[upto - 1];
        if root.kind == EntryKind::File && !is_tabular(root.path@) {
            before.push(root.path@)
        } else {
            before
        }
    }
}

/// Resolves one root into the files it contributes.
pub fn get_root_inputs(root: &FsEntry, tree: bool) -> (out: Result<Vec<String>, TblError>)
    ensures
        match out {
            Ok(files) => root_inputs(*root, tree) == Ok::<_, Seq<char>>(
                texts(files@),
            ),
            Err(e) => root_inputs(*root, tree) is Err && e@ == fault(
                ErrorKind::IO,
                root_inputs(*root, tree)->Err_0,
            ),
        },
{
    match root.kind {
        EntryKind::Directory => {
            if tree {
                get_tree_tabular_files(root)
            } else {
                get_directory_tabular_files(root)
            }
        },
        EntryKind::File => {
            let mut files: Vec<String> = Vec::new();
            if is_tabular_file(root.path.as_str()) {
                files.push(root.path.clone());
                assert(texts(files@) =~= seq![root.path@]);
            } else {
                assert(texts(files@) =~= Seq::<Seq<char>>::empty());
            }
            Ok(files)
        },
        _ => Err(TblError::IOError(root.path.clone())),
    }
}

/// Whether `files` lists what was `found`: as found, or with `sort` in
/// ascending path order, files that sort alike staying in the order found.
pub open spec fn is_listing_of(files: Seq<Seq<char>>, found: Seq<Seq<char>>, sort: bool) -> bool {
    if sort {
        exists|order: Seq<usize>| #[trigger]
            crate::order::is_stable_order(order, found) && files == crate::order::arranged(
                found,
                order,
            )
    } else {
        files == found
    }
}

/// Gets the input files that `roots` stand for: every root resolved in
/// turn and the results concatenated. With `sort` the files come out in
/// ascending path order, files that sort alike in the order found.
///
/// Fails with an `IOError` naming the first path that could not
/// be read; nothing is returned for the roots before it.
pub fn get_input_paths(roots: &Vec<FsEntry>, tree: bool, sort: bool) -> (out: Result<
    Vec<String>,
    TblError,
>)
    ensures
        match out {
            Ok(files) => resolved_inputs(roots@, tree, roots.len() as nat) is Ok && is_listing_of(
                texts(files@),
                resolved_inputs(roots@, tree, roots.len() as nat)->Ok_0,
                sort,
            ),
            Err(e) => resolved_inputs(roots@, tree, roots.len() as nat) is Err && e@ == fault(
                ErrorKind::IO,
                resolved_inputs(roots@, tree, roots.len() as nat)->Err_0,
            ),
        },
{
    let mut files: Vec<String> = Vec::new();
    let ghost mut found: Seq<Seq<char>> = Seq::empty();
    let mut i: usize = 0;
    while i < roots.len()
        invariant
            0 <= i <= roots.len(),
            resolved_inputs(roots@, tree, i as nat) == Ok::<_, Seq<char>>(found),
            texts(files@) =~= found,
        decreases roots.len() - i,
    {
        match get_root_inputs(&roots[i], tree) {
            Ok(mut added) => {
                proof {
                    found = found + texts(added@);
                }
                files.append(&mut added);
            },
            Err(e) => {
                proof {
                    lemma_resolution_failure_stays(
                        roots@,
                        tree,
                        (i + 1) as nat,
                        roots.len() as nat,
                    );
                }
                return Err(e);
            },
        }
        i += 1;
    }
    assert(texts(files@) == found);
    if sort {
        let order = crate::order::stable_order(&files);
        let sorted = crate::order::arrange(&files, &order);
        assert(resolved_inputs(roots@, tree, roots.len() as nat) == Ok::<_, Seq<char>>(found));
        assert(crate::order::is_stable_order(order@, found) && texts(sorted@)
            == crate::order::arranged(found, order@));
        Ok(sorted)
    } else {
        Ok(files)
    }
}

/// Gets the roots that are passed over: regular files without the tabular
/// extension. They are no error; callers report them as a notice.
pub fn get_skipped_inputs(roots: &Vec<FsEntry>) -> (skipped: Vec<String>)
    ensures
        texts(skipped@) == skipped_among(roots@, roots.len() as nat),
{
    let mut skipped: Vec<String> = Vec::new();
    let mut i: usize = 0;
    while i < roots.len()
        invariant
            0 <= i <= roots.len(),
            texts(skipped@) =~= skipped_among(roots@, i as nat),
        decreases roots.len() - i,
    {
        let root = &roots[i];
        let is_file = match root.kind {
            EntryKind::File => true,
            _ => false,
        };
        if is_file && !is_tabular_file(root.path.as_str()) {
            skipped.push(root.path.clone());
        }
        i += 1;
    }
    skipped
}

} // verus!
