//! Path arithmetic: file names, stems, extensions, joins and prefixes.
//!
//! Paths are held as text. Taking a path apart and putting one together is
//! left to `std::path`, so that the platform's rules apply; this module adds
//! how those pieces are combined into output paths, temporary targets and
//! common prefixes.

use crate::error::{fault, ErrorKind, TblError};
use vstd::prelude::*;

verus! {

/// The final component of `path`, as `std::path::Path::file_name` finds it.
pub uninterp spec fn file_name_of(path: Seq<char>) -> Option<Seq<char>>;

/// The file name of `path` without its extension, as
/// `std::path::Path::file_stem` finds it.
pub uninterp spec fn file_stem_of(path: Seq<char>) -> Option<Seq<char>>;

/// The extension of `path`, as `std::path::Path::extension` finds it.
pub uninterp spec fn extension_of(path: Seq<char>) -> Option<Seq<char>>;

/// `base` extended by `rest`, as `std::path::Path::join` builds it.
pub uninterp spec fn joined(base: Seq<char>, rest: Seq<char>) -> Seq<char>;

/// `path` with its final component replaced by `name`, as
/// `std::path::Path::with_file_name` builds it.
pub uninterp spec fn with_file_name_of(path: Seq<char>, name: Seq<char>) -> Seq<char>;

/// `path` relative to `base`, as `std::path::Path::strip_prefix` finds it.
pub uninterp spec fn strip_prefix_of(path: Seq<char>, base: Seq<char>) -> Option<Seq<char>>;

/// The components of `path`, as `std::path::Path::components` yields them.
pub uninterp spec fn components_of(path: Seq<char>) -> Seq<Seq<char>>;

/// The path that collecting `parts` into a `std::path::PathBuf` builds.
pub uninterp spec fn path_of_components(parts: Seq<Seq<char>>) -> Seq<char>;

/// Whether two texts name the same path, as `==` on `std::path::Path` decides.
pub uninterp spec fn same_path(a: Seq<char>, b: Seq<char>) -> bool;

/// Whether `a` sorts at or before `b`, as `<=` on `std::path::Path` decides.
pub uninterp spec fn path_le(a: Seq<char>, b: Seq<char>) -> bool;

/// The text of an optional string.
pub open spec fn opt_text(o: Option<String>) -> Option<Seq<char>> {
    match o {
        Some(s) => Some(s@),
        None => None,
    }
}

/// The texts of a sequence of strings.
pub open spec fn texts(v: Seq<String>) -> Seq<Seq<char>> {
    Seq::new(v.len(), |i: int| v[i]@)
}

/// Calls `std::path::Path::file_name`. The contract only names the result:
/// it is whatever the standard library returns for this text.
#[verifier::external_body]
fn path_file_name(path: &str) -> (name: Option<String>)
    ensures
        opt_text(name) == file_name_of(path@),
{
    std::path::Path::new(path).file_name().map(|n| n.to_string_lossy().into_owned())
}

/// Calls `std::path::Path::file_stem`. The contract only names the result.
#[verifier::external_body]
fn path_file_stem(path: &str) -> (stem: Option<String>)
    ensures
        opt_text(stem) == file_stem_of(path@),
{
    std::path::Path::new(path).file_stem().map(|n| n.to_string_lossy().into_owned())
}

/// Calls `std::path::Path::extension`. The contract only names the result.
#[verifier::external_body]
fn path_extension(path: &str) -> (ext: Option<String>)
    ensures
        opt_text(ext) == extension_of(path@),
{
    std::path::Path::new(path).extension().map(|e| e.to_string_lossy().into_owned())
}

/// Calls `std::path::Path::join`. The contract only names the result.
#[verifier::external_body]
pub(crate) fn path_join(base: &str, rest: &str) -> (path: String)
    ensures
        path@ == joined(base@, rest@),
{
    std::path::Path::new(base).join(rest).to_string_lossy().into_owned()
}

/// Calls `std::path::Path::with_file_name`. The contract only names the
/// result.
#[verifier::external_body]
fn path_with_file_name(path: &str, name: &str) -> (renamed: String)
    ensures
        renamed@ == with_file_name_of(path@, name@),
{
    std::path::Path::new(path).with_file_name(name).to_string_lossy().into_owned()
}

/// Calls `std::path::Path::strip_prefix`; a failure to strip becomes `None`.
/// The contract only names the result.
#[verifier::external_body]
pub(crate) fn path_strip_prefix(path: &str, base: &str) -> (rest: Option<String>)
    ensures
        opt_text(rest) == strip_prefix_of(path@, base@),
{
    std::path::Path::new(path).strip_prefix(base).ok().map(|p| p.to_string_lossy().into_owned())
}

/// Calls `std::path::Path::components` and hands each component out as
/// text. The contract only names the result.
#[verifier::external_body]
fn path_components(path: &str) -> (parts: Vec<String>)
    ensures
        texts(parts@) == components_of(path@),
{
    std::path::Path::new(path).components().map(
        |c| c.as_os_str().to_string_lossy().into_owned(),
    ).collect()
}

/// Collects components into a `std::path::PathBuf`, which pushes them one
/// after another. The contract only names the result.
#[verifier::external_body]
fn path_from_components(parts: &Vec<String>) -> (path: String)
    ensures
        path@ == path_of_components(texts(parts@)),
{
    parts.iter().collect::<std::path::PathBuf>().to_string_lossy().into_owned()
}

/// Compares two paths with `==` on `std::path::Path`, which compares them
/// component by component. Beyond naming the result the contract claims
/// that the comparison gives the same answer both ways round, and that a
/// text names the same path as itself.
#[verifier::external_body]
pub(crate) fn path_same(a: &str, b: &str) -> (same: bool)
    ensures
        same == same_path(a@, b@),
        same == same_path(b@, a@),
        a@ == b@ ==> same,
{
    std::path::Path::new(a) == std::path::Path::new(b)
}

/// Compares two paths with `<=` on `std::path::Path`. Beyond naming the
/// result the contract claims what the standard library documents of `Ord`:
/// of two paths one sorts at or before the other, and what sorts at or
/// before `a` sorts at or before `b` when `a` does.
#[verifier::external_body]
pub(crate) fn path_at_or_before(a: &str, b: &str) -> (le: bool)
    ensures
        le == path_le(a@, b@),
        le || path_le(b@, a@),
        forall|c: Seq<char>| le && #[trigger] path_le(c, a@) ==> path_le(c, b@),
{
    std::path::Path::new(a) <= std::path::Path::new(b)
}

/// Whether `path` carries the extension of a tabular file.
pub open spec fn is_tabular(path: Seq<char>) -> bool {
    extension_of(path) == Some("parquet"@)
}

/// True when `file_path` has the tabular extension, `parquet`.
pub fn is_tabular_file(file_path: &str) -> (tabular: bool)
    ensures
        tabular == is_tabular(file_path@),
{
    match path_extension(file_path) {
        Some(ext) => ext == String::from_str("parquet"),
        None => false,
    }
}

/// The text of an optional affix; an absent one adds nothing.
pub open spec fn affix(o: Option<Seq<char>>) -> Seq<char> {
    match o {
        Some(s) => s,
        None => Seq::empty(),
    }
}

/// A dot and the extension, or nothing where there is no extension.
pub open spec fn dotted(extension: Option<Seq<char>>) -> Seq<char> {
    match extension {
        Some(e) => seq!['.'] + e,
        None => Seq::empty(),
    }
}

/// `prefix + stem + postfix + .extension`.
pub open spec fn spliced_name(
    stem: Seq<char>,
    extension: Option<Seq<char>>,
    prefix: Option<Seq<char>>,
    postfix: Option<Seq<char>>,
) -> Seq<char> {
    affix(prefix) + stem + affix(postfix) + dotted(extension)
}

/// Builds a file name from its stem and extension with a prefix and a
/// postfix spliced around the stem.
pub fn splice_file_name(
    stem: &str,
    extension: &Option<String>,
    file_prefix: &Option<String>,
    file_postfix: &Option<String>,
) -> (name: String)
    ensures
        name@ == spliced_name(
            stem@,
            opt_text(*extension),
            opt_text(*file_prefix),
            opt_text(*file_postfix),
        ),
{
    let mut name = match file_prefix {
        Some(p) => p.clone(),
        None => String::new(),
    };
    name.append(stem);
    match file_postfix {
        Some(p) => name.append(p.as_str()),
        None => {},
    }
    match extension {
        Some(e) => {
            proof {
                reveal_strlit(".");
                assert("."@ =~= seq!['.']);
            }
            name.append(".");
            name.append(e.as_str());
        },
        None => {},
    }
    assert(name@ =~= spliced_name(
        stem@,
        opt_text(*extension),
        opt_text(*file_prefix),
        opt_text(*file_postfix),
    ));
    name
}

/// Where `input` lands once moved into `output_dir`: the directory joined
/// with the input's file name, or the input itself when no directory is
/// given. `None` when a directory is given and the input has no file name.
pub open spec fn relocated(input: Seq<char>, output_dir: Option<Seq<char>>) -> Option<Seq<char>> {
    match output_dir {
        Some(dir) => match file_name_of(input) {
            Some(name) => Some(joined(dir, name)),
            None => None,
        },
        None => Some(input),
    }
}

/// `path` with prefix and postfix spliced around the stem of its file name,
/// or `path` itself when neither is given. `None` when one is given and the
/// path has no file stem.
pub open spec fn renamed(
    path: Seq<char>,
    prefix: Option<Seq<char>>,
    postfix: Option<Seq<char>>,
) -> Option<Seq<char>> {
    if prefix is None && postfix is None {
        Some(path)
    } else {
        match file_stem_of(path) {
            Some(stem) => Some(
                with_file_name_of(path, spliced_name(stem, extension_of(path), prefix, postfix)),
            ),
            None => None,
        }
    }
}

/// The output path of a single input file.
pub open spec fn converted_path(
    input: Seq<char>,
    output_dir: Option<Seq<char>>,
    prefix: Option<Seq<char>>,
    postfix: Option<Seq<char>>,
) -> Option<Seq<char>> {
    match relocated(input, output_dir) {
        Some(moved) => renamed(moved, prefix, postfix),
        None => None,
    }
}

/// The path on which [`convert_file_path`] fails: the input when it has no
/// file name to move, else the moved path, which has no stem to rename.
pub open spec fn unconvertible_path(input: Seq<char>, output_dir: Option<Seq<char>>) -> Seq<
    char,
> {
    match relocated(input, output_dir) {
        Some(moved) => moved,
        None => input,
    }
}

/// Splices a prefix and a postfix around the stem of the file name of
/// `path`; with neither, the path comes back unchanged.
pub fn rename_file(path: String, file_prefix: &Option<String>, file_postfix: &Option<String>) -> (out:
    Result<String, TblError>)
    ensures
        match out {
            Ok(p) => renamed(path@, opt_text(*file_prefix), opt_text(*file_postfix)) == Some(p@),
            Err(e) => renamed(path@, opt_text(*file_prefix), opt_text(*file_postfix)) is None
                && e@ == fault(ErrorKind::Argument, path@),
        },
{
    if file_prefix.is_some() || file_postfix.is_some() {
        match path_file_stem(path.as_str()) {
            Some(stem) => {
                let extension = path_extension(path.as_str());
                let new_name = splice_file_name(
                    stem.as_str(),
                    &extension,
                    file_prefix,
                    file_postfix,
                );
                Ok(path_with_file_name(path.as_str(), new_name.as_str()))
            },
            None => Err(TblError::ArgumentError(path)),
        }
    } else {
        Ok(path)
    }
}

/// Computes where the rewritten copy of `input` goes: into `output_dir` if
/// one is given, else beside the input, with `file_prefix` and
/// `file_postfix` spliced around the stem of the file name.
///
/// Fails with an `ArgumentError` naming the offending path when the input
/// has no file name to carry into `output_dir`, or no stem to splice around.
pub fn convert_file_path(
    input: &str,
    output_dir: &Option<String>,
    file_prefix: &Option<String>,
    file_postfix: &Option<String>,
) -> (out: Result<String, TblError>)
    ensures
        match out {
            Ok(p) => converted_path(
                input@,
                opt_text(*output_dir),
                opt_text(*file_prefix),
                opt_text(*file_postfix),
            ) == Some(p@),
            Err(e) => converted_path(
                input@,
                opt_text(*output_dir),
                opt_text(*file_prefix),
                opt_text(*file_postfix),
            ) is None && e@ == fault(
                ErrorKind::Argument,
                unconvertible_path(input@, opt_text(*output_dir)),
            ),
        },
{
    let moved = match output_dir {
        Some(dir) => match path_file_name(input) {
            Some(name) => path_join(dir.as_str(), name.as_str()),
            None => {
                return Err(TblError::ArgumentError(input.to_owned()));
            },
        },
        None => input.to_owned(),
    };
    rename_file(moved, file_prefix, file_postfix)
}

/// The temporary path beside `path` that a rewrite is written to first:
/// the same file name with `_tmp` appended to its stem. A path without a
/// file stem is its own temporary target.
pub open spec fn tmp_target(path: Seq<char>) -> Seq<char> {
    match file_stem_of(path) {
        Some(stem) => with_file_name_of(path, stem + "_tmp"@ + dotted(extension_of(path))),
        None => path,
    }
}

/// Creates the temporary target that stands in for `path` while it is
/// being written.
pub fn create_tmp_target(path: &str) -> (tmp: String)
    ensures
        tmp@ == tmp_target(path@),
{
    match path_file_stem(path) {
        Some(stem) => {
            let mut new_name = stem;
            new_name.append("_tmp");
            match path_extension(path) {
                Some(extension) => {
                    proof {
                        reveal_strlit(".");
                        assert("."@ =~= seq!['.']);
                    }
                    new_name.append(".");
                    new_name.append(extension.as_str());
                },
                None => {},
            }
            assert(new_name@ =~= file_stem_of(path@).unwrap() + "_tmp"@ + dotted(
                extension_of(path@),
            ));
            path_with_file_name(path, new_name.as_str())
        },
        None => path.to_owned(),
    }
}

/// The component lists of a list of component vectors.
pub open spec fn component_lists(lists: Seq<Vec<String>>) -> Seq<Seq<Seq<char>>> {
    Seq::new(lists.len(), |k: int| texts(lists[k]@))
}

/// Whether every list starts with `p`.
pub open spec fn is_common_prefix(p: Seq<Seq<char>>, lists: Seq<Seq<Seq<char>>>) -> bool {
    forall|k: int| 0 <= k < lists.len() ==> p.is_prefix_of(#[trigger] lists[k])
}

/// Whether `p` is a common prefix of the lists that every other common
/// prefix is a prefix of.
pub open spec fn is_longest_common_prefix(
    p: Seq<Seq<char>>,
    lists: Seq<Seq<Seq<char>>>,
) -> bool {
    &&& is_common_prefix(p, lists)
    &&& forall|q: Seq<Seq<char>>| is_common_prefix(q, lists) ==> q.is_prefix_of(p)
}

/// The longest sequence of components that every list starts with.
pub open spec fn longest_common_prefix(lists: Seq<Seq<Seq<char>>>) -> Seq<Seq<char>> {
    choose|p: Seq<Seq<char>>| is_longest_common_prefix(p, lists)
}

/// Two longest common prefixes of the same lists are the same sequence, so
/// one that is found is the one [`longest_common_prefix`] stands for.
pub proof fn lemma_longest_common_prefix_unique(
    p: Seq<Seq<char>>,
    lists: Seq<Seq<Seq<char>>>,
)
    requires
        is_longest_common_prefix(p, lists),
    ensures
        longest_common_prefix(lists) == p,
{
    let q = longest_common_prefix(lists);
    assert(is_longest_common_prefix(q, lists));
    assert(q.is_prefix_of(p));
    assert(p.is_prefix_of(q));
    assert(p =~= q);
}

/// Finds the longest run of leading components shared by every list.
/// With no list at all there is nothing to share, and the result is empty.
pub fn common_components(lists: &Vec<Vec<String>>) -> (common: Vec<String>)
    ensures
        lists.len() > 0 ==> is_longest_common_prefix(texts(common@), component_lists(lists@)),
        lists.len() > 0 ==> texts(common@) == longest_common_prefix(component_lists(lists@)),
        lists.len() == 0 ==> common@.len() == 0,
{
    let mut common: Vec<String> = Vec::new();
    if lists.len() == 0 {
        return common;
    }
    let ghost all = component_lists(lists@);
    let first = &lists[0];
    let mut i: usize = 0;
    while i < first.len()
        invariant
            0 <= i <= first.len(),
            lists.len() > 0,
            first@ == lists@[0]@,
            common.len() == i,
            forall|m: int| 0 <= m < i ==> common@[m]@ == first@[m]@,
        decreases first.len() - i,
    {
        common.push(first[i].clone());
        i += 1;
    }
    assert(texts(common@) =~= all[0]);
    assert forall|q: Seq<Seq<char>>| is_common_prefix(q, all) implies q.is_prefix_of(
        texts(common@),
    ) by {
        assert(q.is_prefix_of(all[0]));
    }
    let mut k: usize = 1;
    while k < lists.len()
        invariant
            1 <= k <= lists.len(),
            all == component_lists(lists@),
            forall|m: int| 0 <= m < k ==> texts(common@).is_prefix_of(#[trigger] all[m]),
            forall|q: Seq<Seq<char>>| is_common_prefix(q, all) ==> q.is_prefix_of(texts(common@)),
        decreases lists.len() - k,
    {
        let other = &lists[k];
        let ghost before = texts(common@);
        let mut j: usize = 0;
        while j < common.len() && j < other.len() && common[j] == other[j]
            invariant
                0 <= j <= common.len(),
                j <= other.len(),
                k < lists.len(),
                other@ == lists@[k as int]@,
                forall|m: int| 0 <= m < j ==> common@[m]@ == other@[m]@,
            decreases common.len() - j,
        {
            j += 1;
        }
        common.truncate(j);
        proof {
            let after = texts(common@);
            assert(after =~= before.subrange(0, j as int));
            assert(after.is_prefix_of(all[k as int]));
            assert forall|m: int| 0 <= m < k + 1 implies after.is_prefix_of(
                #[trigger] all[m],
            ) by {
                if m < k {
                    assert(before.is_prefix_of(all[m]));
                }
            }
            assert forall|q: Seq<Seq<char>>| is_common_prefix(q, all) implies q.is_prefix_of(
                after,
            ) by {
                assert(q.is_prefix_of(before));
                assert(q.is_prefix_of(all[k as int]));
                if q.len() > j {
                    assert(q[j as int] == before[j as int]);
                    assert(q[j as int] == all[k as int][j as int]);
                }
            }
        }
        k += 1;
    }
    proof {
        assert(is_common_prefix(texts(common@), all));
        lemma_longest_common_prefix_unique(texts(common@), all);
    }
    common
}

/// The component lists of a list of paths.
pub open spec fn components_of_all(paths: Seq<String>) -> Seq<Seq<Seq<char>>> {
    Seq::new(paths.len(), |k: int| components_of(paths[k]@))
}

/// Gets the longest path that every one of `paths` starts with, component
/// by component. Fails with an `ArgumentError` when no path is given.
pub fn get_common_prefix(paths: &Vec<String>) -> (out: Result<String, TblError>)
    ensures
        match out {
            Ok(prefix) => paths.len() > 0 && is_longest_common_prefix(
                longest_common_prefix(components_of_all(paths@)),
                components_of_all(paths@),
            ) && prefix@ == path_of_components(longest_common_prefix(components_of_all(paths@))),
            Err(e) => paths.len() == 0 && e@ == fault(ErrorKind::Argument, "no paths given"@),
        },
{
    if paths.len() == 0 {
        return Err(TblError::ArgumentError(String::from_str("no paths given")));
    }
    let mut lists: Vec<Vec<String>> = Vec::new();
    let mut i: usize = 0;
    while i < paths.len()
        invariant
            0 <= i <= paths.len(),
            lists.len() == i,
            forall|k: int| 0 <= k < i ==> texts(#[trigger] lists@[k]@) == components_of(paths@[k]@),
        decreases paths.len() - i,
    {
        lists.push(path_components(paths[i].as_str()));
        i += 1;
    }
    assert(component_lists(lists@) =~= components_of_all(paths@));
    let common = common_components(&lists);
    Ok(path_from_components(&common))
}

/// The file name of the output of `path`: the stem and extension of
/// `path` with the prefix and postfix spliced around the stem. A path
/// without a file stem stands in whole for the stem.
pub open spec fn output_file_name(
    path: Seq<char>,
    prefix: Option<Seq<char>>,
    postfix: Option<Seq<char>>,
) -> Seq<char> {
    let stem = match file_stem_of(path) {
        Some(s) => s,
        None => path,
    };
    spliced_name(stem, extension_of(path), prefix, postfix)
}

/// `path` relative to `root`, or `path` itself where it does not lie
/// under `root`.
pub open spec fn relative_to(path: Seq<char>, root: Seq<char>) -> Seq<char> {
    match strip_prefix_of(path, root) {
        Some(rest) => rest,
        None => path,
    }
}

/// The output path of `path`.
///
/// Without an output directory the file stays where it is and only its
/// name changes. With an output directory and no root the file goes
/// straight into that directory under its new name. With both, the file
/// keeps its path relative to the root under the output directory, and the
/// new name replaces the file name only.
pub open spec fn output_path(
    path: Seq<char>,
    output_dir: Option<Seq<char>>,
    root_dir: Option<Seq<char>>,
    prefix: Option<Seq<char>>,
    postfix: Option<Seq<char>>,
) -> Seq<char> {
    let new_name = output_file_name(path, prefix, postfix);
    match output_dir {
        None => with_file_name_of(path, new_name),
        Some(dir) => match root_dir {
            None => joined(dir, new_name),
            Some(root) => joined(dir, with_file_name_of(relative_to(path, root), new_name)),
        },
    }
}

/// Gets the output path of `path`: beside the input when no output
/// directory is given, else inside it, flat or, with `root_dir`, at the
/// path relative to that root. The prefix and postfix go around the stem
/// of the file name only.
pub fn get_output_path(
    path: String,
    output_dir: Option<String>,
    root_dir: Option<String>,
    output_prefix: Option<String>,
    output_postfix: Option<String>,
) -> (out: String)
    ensures
        out@ == output_path(
            path@,
            opt_text(output_dir),
            opt_text(root_dir),
            opt_text(output_prefix),
            opt_text(output_postfix),
        ),
{
    let stem = match path_file_stem(path.as_str()) {
        Some(s) => s,
        None => path.clone(),
    };
    let extension = path_extension(path.as_str());
    let new_name = splice_file_name(stem.as_str(), &extension, &output_prefix, &output_postfix);
    match &output_dir {
        None => path_with_file_name(path.as_str(), new_name.as_str()),
        Some(dir) => match &root_dir {
            None => path_join(dir.as_str(), new_name.as_str()),
            Some(root) => {
                let rest = match path_strip_prefix(path.as_str(), root.as_str()) {
                    Some(rest) => rest,
                    None => path.clone(),
                };
                let renamed = path_with_file_name(rest.as_str(), new_name.as_str());
                path_join(dir.as_str(), renamed.as_str())
            },
        },
    }
}

/// Copies a list of paths.
pub fn copy_paths(paths: &Vec<String>) -> (copy: Vec<String>)
    ensures
        texts(copy@) == texts(paths@),
        copy.len() == paths.len(),
{
    let mut copy: Vec<String> = Vec::new();
    let mut i: usize = 0;
    while i < paths.len()
        invariant
            0 <= i <= paths.len(),
            copy.len() == i,
            forall|k: int| 0 <= k < i ==> #[trigger] copy@[k]@ == paths@[k]@,
        decreases paths.len() - i,
    {
        copy.push(paths[i].clone());
        i += 1;
    }
    assert(texts(copy@) =~= texts(paths@));
    copy
}

} // verus!
