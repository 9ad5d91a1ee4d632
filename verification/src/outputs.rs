//! The output-path planner: one output path for every resolved input.
//!
//! A plan is made from an [`OutputPathSpec`] and a snapshot of what was
//! found at each declared root. Nothing is written while planning, and a
//! plan in which two inputs would land on the same output is refused.

use crate::error::{fault, ErrorKind, Fault, TblError};
use crate::gather::{resolved_inputs, root_inputs, EntryKind, FsEntry};
use crate::order::{arrange, arranged, is_stable_order, stable_order};
use crate::gather::get_root_inputs;
use crate::paths::{
    convert_file_path, converted_path, joined, opt_text, path_join, path_same, path_strip_prefix,
    rename_file, renamed, same_path, strip_prefix_of, texts, unconvertible_path,
};
use vstd::prelude::*;

verus! {

/// Where outputs go and how they are named.
#[derive(Debug)]
pub struct OutputPathSpec {
    /// The declared root inputs; `None` stands for the working directory.
    pub inputs: Option<Vec<String>>,
    /// The directory that receives the outputs; `None` writes beside the
    /// inputs.
    pub output_dir: Option<String>,
    /// Whether directories are walked to any depth, their structure kept
    /// under `output_dir`.
    pub tree: bool,
    /// Text put before the stem of every output file name.
    pub file_prefix: Option<String>,
    /// Text put after the stem of every output file name.
    pub file_postfix: Option<String>,
    /// Whether the plan is sorted by output path.
    pub sort: bool,
}

/// What an [`OutputPathSpec`] stands for.
pub ghost struct SpecModel {
    pub inputs: Option<Seq<Seq<char>>>,
    pub output_dir: Option<Seq<char>>,
    pub tree: bool,
    pub file_prefix: Option<Seq<char>>,
    pub file_postfix: Option<Seq<char>>,
    pub sort: bool,
}

/// The texts of optional strings.
pub open spec fn opt_texts(list: Option<Vec<String>>) -> Option<Seq<Seq<char>>> {
    match list {
        Some(v) => Some(texts(v@)),
        None => None,
    }
}

impl View for OutputPathSpec {
    type V = SpecModel;

    open spec fn view(&self) -> SpecModel {
        SpecModel {
            inputs: opt_texts(self.inputs),
            output_dir: opt_text(self.output_dir),
            tree: self.tree,
            file_prefix: opt_text(self.file_prefix),
            file_postfix: opt_text(self.file_postfix),
            sort: self.sort,
        }
    }
}

/// Inputs and their outputs, position by position.
pub ghost struct Plan {
    pub inputs: Seq<Seq<char>>,
    pub outputs: Seq<Seq<char>>,
}

/// The plan with nothing in it.
pub open spec fn empty_plan() -> Plan {
    Plan { inputs: Seq::empty(), outputs: Seq::empty() }
}

/// One plan followed by another.
pub open spec fn plan_concat(a: Plan, b: Plan) -> Plan {
    Plan { inputs: a.inputs + b.inputs, outputs: a.outputs + b.outputs }
}

/// The output of an input that is a root itself or a direct child of one:
/// it goes straight into the output directory if there is one, and is
/// renamed with the prefix and postfix.
pub open spec fn flat_output(spec: SpecModel, input: Seq<char>) -> Result<Seq<char>, Fault> {
    match converted_path(
        input,
        spec.output_dir,
        spec.file_prefix,
        spec.file_postfix,
    ) {
        Some(output) => Ok(output),
        None => Err(
            fault(ErrorKind::Argument, unconvertible_path(input, spec.output_dir)),
        ),
    }
}

/// Where a file found on a walk of `root` is moved to: under the output
/// directory at its path relative to `root`, or nowhere when there is no
/// output directory. Fails when the file does not lie under `root`.
pub open spec fn tree_moved(spec: SpecModel, root: Seq<char>, input: Seq<char>) -> Result<
    Seq<char>,
    Fault,
> {
    match spec.output_dir {
        Some(dir) => match strip_prefix_of(input, root) {
            Some(rest) => Ok(joined(dir, rest)),
            None => Err(fault(ErrorKind::PathResolution, input)),
        },
        None => Ok(input),
    }
}

/// The output of a file found on a walk of `root`: moved as [`tree_moved`]
/// says, then renamed with the prefix and postfix.
pub open spec fn tree_output(spec: SpecModel, root: Seq<char>, input: Seq<char>) -> Result<
    Seq<char>,
    Fault,
> {
    match tree_moved(spec, root, input) {
        Ok(moved) => match renamed(moved, spec.file_prefix, spec.file_postfix) {
            Some(output) => Ok(output),
            None => Err(fault(ErrorKind::Argument, moved)),
        },
        Err(f) => Err(f),
    }
}

/// The output of one file of `root`, walked or not.
pub open spec fn output_for(
    spec: SpecModel,
    root: Seq<char>,
    walked: bool,
    input: Seq<char>,
) -> Result<Seq<char>, Fault> {
    if walked {
        tree_output(spec, root, input)
    } else {
        flat_output(spec, input)
    }
}

/// The outputs of the first `upto` of `files`, or the first failure.
pub open spec fn outputs_for(
    spec: SpecModel,
    root: Seq<char>,
    walked: bool,
    files: Seq<Seq<char>>,
    upto: nat,
) -> Result<Seq<Seq<char>>, Fault>
    decreases upto,
{
    if upto == 0 || upto > files.len() {
        Ok(Seq::empty())
    } else {
        match outputs_for(spec, root, walked, files, (upto - 1) as nat) {
            Err(f) => Err(f),
            Ok(before) => match output_for(spec, root, walked, files[upto - 1]) {
                Ok(output) => Ok(before.push(output)),
                Err(f) => Err(f),
            },
        }
    }
}

/// The plan for one root: the files it contributes, each with its output.
///
/// A regular file keeps to itself and ignores `tree`. A directory is
/// listed, to any depth with `tree`. A root that is missing or cannot be
/// read is an `IO` fault about the path that could not be read, as every
/// failure to read the disk is. Files found by a walk keep their place
/// relative to the root; all others land directly in the output
/// directory.
pub open spec fn plan_root(spec: SpecModel, root: FsEntry) -> Result<Plan, Fault> {
    let walked = root.kind == EntryKind::Directory && spec.tree;
    match root_inputs(root, spec.tree) {
        Err(path) => Err(fault(ErrorKind::IO, path)),
        Ok(files) => match outputs_for(spec, root.path@, walked, files, files.len()) {
            Ok(outputs) => Ok(Plan { inputs: files, outputs }),
            Err(f) => Err(f),
        },
    }
}

/// The plans of the first `upto` roots, one after another, or the first
/// failure.
pub open spec fn plan_roots(spec: SpecModel, roots: Seq<FsEntry>, upto: nat) -> Result<
    Plan,
    Fault,
>
    decreases upto,
{
    if upto == 0 || upto > roots.len() {
        Ok(empty_plan())
    } else {
        match plan_roots(spec, roots, (upto - 1) as nat) {
            Err(f) => Err(f),
            Ok(before) => match plan_root(spec, roots[upto - 1]) {
                Ok(found) => Ok(plan_concat(before, found)),
                Err(f) => Err(f),
            },
        }
    }
}

/// Whether the output at position `j` names the same path as an earlier
/// one.
pub open spec fn collides_before(outputs: Seq<Seq<char>>, j: int) -> bool {
    exists|i: int| 0 <= i < j && #[trigger] same_path(outputs[i], outputs[j])
}

/// The first position among the first `upto` outputs whose path was
/// already taken by an earlier output.
pub open spec fn first_collision(outputs: Seq<Seq<char>>, upto: nat) -> Option<int>
    decreases upto,
{
    if upto == 0 || upto > outputs.len() {
        None
    } else {
        match first_collision(outputs, (upto - 1) as nat) {
            Some(j) => Some(j),
            None => if collides_before(outputs, upto - 1) {
                Some(upto - 1)
            } else {
                None
            },
        }
    }
}

/// Whether two texts are different and name different paths.
pub open spec fn distinct_paths(a: Seq<char>, b: Seq<char>) -> bool {
    !same_path(a, b) && !same_path(b, a) && a != b
}

/// Whether no two outputs name the same path, nor are the same text.
pub open spec fn pairwise_distinct(outputs: Seq<Seq<char>>) -> bool {
    forall|i: int, j: int|
        0 <= i < outputs.len() && 0 <= j < outputs.len() && i != j ==> distinct_paths(
            #[trigger] outputs[i],
            #[trigger] outputs[j],
        )
}

/// Finds the first output whose path was already taken by an earlier one.
pub fn find_duplicate_output(outputs: &Vec<String>) -> (hit: Option<usize>)
    ensures
        match hit {
            Some(j) => first_collision(texts(outputs@), outputs.len() as nat) == Some(j as int)
                && j < outputs.len(),
            None => first_collision(texts(outputs@), outputs.len() as nat) is None
                && pairwise_distinct(texts(outputs@)),
        },
{
    let ghost outs = texts(outputs@);
    let mut j: usize = 0;
    while j < outputs.len()
        invariant
            0 <= j <= outputs.len(),
            outs == texts(outputs@),
            first_collision(outs, j as nat) is None,
            forall|a: int, b: int|
                0 <= a < j && 0 <= b < j && a != b ==> distinct_paths(
                    #[trigger] outs[a],
                    #[trigger] outs[b],
                ),
        decreases outputs.len() - j,
    {
        let mut i: usize = 0;
        while i < j
            invariant
                0 <= i <= j < outputs.len(),
                outs == texts(outputs@),
                first_collision(outs, j as nat) is None,
                forall|a: int| 0 <= a < i ==> distinct_paths(#[trigger] outs[a], outs[j as int]),
            decreases j - i,
        {
            assert(outs[i as int] == outputs@[i as int]@ && outs[j as int] == outputs@[j as int]@);
            if path_same(outputs[i].as_str(), outputs[j].as_str()) {
                assert(same_path(outs[i as int], outs[j as int]));
                assert(collides_before(outs, j as int));
                proof {
                    lemma_collision_stays(outs, (j + 1) as nat, outputs.len() as nat);
                }
                return Some(j);
            }
            i += 1;
        }
        assert(!collides_before(outs, j as int));
        j += 1;
    }
    None
}

/// A collision found among the first outputs is still the first one when
/// more outputs are looked at.
pub proof fn lemma_collision_stays(outputs: Seq<Seq<char>>, upto: nat, later: nat)
    requires
        first_collision(outputs, upto) is Some,
        upto <= later <= outputs.len(),
    ensures
        first_collision(outputs, later) == first_collision(outputs, upto),
    decreases later,
{
    if later > upto {
        lemma_collision_stays(outputs, upto, (later - 1) as nat);
    }
}

/// Whether the snapshot answers the declared inputs: one root for each, in
/// order and under the same path; or, with nothing declared, a single root,
/// which stands for the working directory.
pub open spec fn roots_match(inputs: Option<Seq<Seq<char>>>, roots: Seq<FsEntry>) -> bool {
    match inputs {
        Some(declared) => declared.len() == roots.len() && forall|i: int|
            0 <= i < roots.len() ==> (#[trigger] roots[i]).path@ == declared[i],
        None => roots.len() == 1,
    }
}

/// The detail of the fault raised when the snapshot does not answer the
/// declared inputs.
pub open spec fn mismatch_detail() -> Seq<char> {
    "observed roots do not match the declared inputs"@
}

/// What planning comes to: the plan in the order of the roots, or why
/// there is none. A snapshot that does not answer the declared inputs is
/// refused first; then the first failure met while planning the roots in
/// order; then the first output that collides with an earlier one.
pub open spec fn planned(spec: SpecModel, roots: Seq<FsEntry>) -> Result<Plan, Fault> {
    if !roots_match(spec.inputs, roots) {
        Err(fault(ErrorKind::Argument, mismatch_detail()))
    } else {
        match plan_roots(spec, roots, roots.len()) {
            Err(f) => Err(f),
            Ok(plan) => match first_collision(plan.outputs, plan.outputs.len()) {
                Some(j) => Err(fault(ErrorKind::DuplicateOutput, plan.outputs[j])),
                None => Ok(plan),
            },
        }
    }
}

/// Whether `inputs` and `outputs` hand out `plan`: as planned, or with
/// `sort` in ascending order of output path, each input staying with its
/// own output and outputs that sort alike staying in planned order.
pub open spec fn hands_out(
    inputs: Seq<Seq<char>>,
    outputs: Seq<Seq<char>>,
    plan: Plan,
    sort: bool,
) -> bool {
    if sort {
        exists|order: Seq<usize>| #[trigger]
            is_stable_order(order, plan.outputs) && inputs == arranged(plan.inputs, order)
                && outputs == arranged(plan.outputs, order)
    } else {
        inputs == plan.inputs && outputs == plan.outputs
    }
}

/// A failure met among the first outputs is still the failure when more
/// files are converted.
pub proof fn lemma_outputs_failure_stays(
    spec: SpecModel,
    root: Seq<char>,
    walked: bool,
    files: Seq<Seq<char>>,
    upto: nat,
    later: nat,
)
    requires
        outputs_for(spec, root, walked, files, upto) is Err,
        upto <= later <= files.len(),
    ensures
        outputs_for(spec, root, walked, files, later) == outputs_for(
            spec,
            root,
            walked,
            files,
            upto,
        ),
    decreases later,
{
    if later > upto {
        lemma_outputs_failure_stays(spec, root, walked, files, upto, (later - 1) as nat);
    }
}

/// A failure met among the first roots is still the failure when more
/// roots are planned.
pub proof fn lemma_plan_failure_stays(
    spec: SpecModel,
    roots: Seq<FsEntry>,
    upto: nat,
    later: nat,
)
    requires
        plan_roots(spec, roots, upto) is Err,
        upto <= later <= roots.len(),
    ensures
        plan_roots(spec, roots, later) == plan_roots(spec, roots, upto),
    decreases later,
{
    if later > upto {
        lemma_plan_failure_stays(spec, roots, upto, (later - 1) as nat);
    }
}

/// Computes the output of one file found on a walk of `root`.
pub fn convert_tree_path(output_spec: &OutputPathSpec, root: &str, input: &str) -> (out: Result<
    String,
    TblError,
>)
    ensures
        match out {
            Ok(output) => tree_output(output_spec@, root@, input@) == Ok::<_, Fault>(output@),
            Err(e) => tree_output(output_spec@, root@, input@) == Err::<Seq<char>, _>(e@),
        },
{
    let moved = match &output_spec.output_dir {
        Some(dir) => match path_strip_prefix(input, root) {
            Some(rest) => path_join(dir.as_str(), rest.as_str()),
            None => {
                return Err(TblError::PathResolutionError(input.to_owned()));
            },
        },
        None => input.to_owned(),
    };
    rename_file(moved, &output_spec.file_prefix, &output_spec.file_postfix)
}

/// Plans one root: resolves it into files and computes the output of each.
pub fn plan_one_root(output_spec: &OutputPathSpec, root: &FsEntry) -> (out: Result<
    (Vec<String>, Vec<String>),
    TblError,
>)
    ensures
        match out {
            Ok((inputs, outputs)) => plan_root(output_spec@, *root) == Ok::<_, Fault>(
                Plan { inputs: texts(inputs@), outputs: texts(outputs@) },
            ),
            Err(e) => plan_root(output_spec@, *root) == Err::<Plan, _>(e@),
        },
{
    let walked = output_spec.tree && match root.kind {
        EntryKind::Directory => true,
        _ => false,
    };
    let files = match get_root_inputs(root, output_spec.tree) {
        Ok(files) => files,
        Err(e) => {
            return Err(e);
        },
    };
    let ghost found = texts(files@);
    let mut outputs: Vec<String> = Vec::new();
    let ghost mut made: Seq<Seq<char>> = Seq::empty();
    let mut i: usize = 0;
    while i < files.len()
        invariant
            0 <= i <= files.len(),
            found == texts(files@),
            walked == (root.kind == EntryKind::Directory && output_spec.tree),
            root_inputs(*root, output_spec.tree) == Ok::<_, Seq<char>>(found),
            outputs_for(output_spec@, root.path@, walked, found, i as nat) == Ok::<_, Fault>(made),
            texts(outputs@) =~= made,
        decreases files.len() - i,
    {
        assert(found[i as int] == files@[i as int]@);
        let converted = if walked {
            convert_tree_path(output_spec, root.path.as_str(), files[i].as_str())
        } else {
            convert_file_path(
                files[i].as_str(),
                &output_spec.output_dir,
                &output_spec.file_prefix,
                &output_spec.file_postfix,
            )
        };
        match converted {
            Ok(output) => {
                proof {
                    made = made.push(output@);
                }
                outputs.push(output);
            },
            Err(e) => {
                proof {
                    lemma_outputs_failure_stays(
                        output_spec@,
                        root.path@,
                        walked,
                        found,
                        (i + 1) as nat,
                        found.len(),
                    );
                }
                return Err(e);
            },
        }
        i += 1;
    }
    assert(texts(outputs@) == made);
    Ok((files, outputs))
}

/// Taking distinct outputs in another arrangement leaves them distinct.
pub proof fn lemma_arranged_distinct(outputs: Seq<Seq<char>>, order: Seq<usize>)
    requires
        pairwise_distinct(outputs),
        crate::order::is_arrangement(order, outputs.len()),
    ensures
        pairwise_distinct(arranged(outputs, order)),
{
    let a = arranged(outputs, order);
    assert forall|i: int, j: int| 0 <= i < a.len() && 0 <= j < a.len() && i != j implies distinct_paths(
        #[trigger] a[i],
        #[trigger] a[j],
    ) by {
        if i < j {
            assert(order[i] != order[j]);
        } else {
            assert(order[j] != order[i]);
        }
        assert(distinct_paths(outputs[order[i] as int], outputs[order[j] as int]));
    }
}

/// Checks that the snapshot answers the declared inputs.
pub fn check_roots_match(inputs: &Option<Vec<String>>, roots: &Vec<FsEntry>) -> (matching: bool)
    ensures
        matching == roots_match(opt_texts(*inputs), roots@),
{
    match inputs {
        None => roots.len() == 1,
        Some(declared) => {
            if declared.len() != roots.len() {
                return false;
            }
            let mut i: usize = 0;
            while i < roots.len()
                invariant
                    0 <= i <= roots.len(),
                    *inputs == Some::<Vec<String>>(*declared),
                    opt_texts(*inputs) == Some(texts(declared@)),
                    declared.len() == roots.len(),
                    forall|k: int| 0 <= k < i ==> (#[trigger] roots@[k]).path@ == declared@[k]@,
                decreases roots.len() - i,
            {
                assert(texts(declared@)[i as int] == declared@[i as int]@);
                if !(roots[i].path == declared[i]) {
                    assert(roots@[i as int].path@ != texts(declared@)[i as int]);
                    return false;
                }
                i += 1;
            }
            true
        },
    }
}

/// Computes the input files and, position by position, the path each is
/// written to.
///
/// `roots` is what was found on disk at each declared input, or at the
/// working directory when `output_spec` declares none. Every root is
/// planned on its own and the plans are concatenated. A regular file is
/// moved into the output directory, if there is one, under its own name;
/// so are the direct children of a directory. With `tree`, a directory is
/// walked to any depth and each file keeps its path relative to the root
/// under the output directory. Prefix and postfix go around the stem of the
/// file name only. Files without the tabular extension are passed over.
///
/// On success the two lists have equal length and no two outputs name the
/// same path. With `sort` the pairs come out in ascending order of output
/// path.
///
/// Fails, before anything could be written, with
/// - an `ArgumentError` when the snapshot does not answer the declared
///   inputs, or a path has no file name to rename or move;
/// - an `IOError` naming the first path that is missing or could not be
///   read; no pairs are returned for the roots before it;
/// - a `PathResolutionError` naming a file that a walk found outside its
///   root;
/// - a `DuplicateOutputError` naming the first output path that an earlier
///   input already claimed.
pub fn get_output_paths(output_spec: OutputPathSpec, roots: &Vec<FsEntry>) -> (out: Result<
    (Vec<String>, Vec<String>),
    TblError,
>)
    ensures
        match out {
            Ok((inputs, outputs)) => {
                &&& planned(output_spec@, roots@) is Ok
                &&& hands_out(
                    texts(inputs@),
                    texts(outputs@),
                    planned(output_spec@, roots@)->Ok_0,
                    output_spec.sort,
                )
                &&& inputs.len() == outputs.len()
                &&& pairwise_distinct(texts(outputs@))
            },
            Err(e) => planned(output_spec@, roots@) == Err::<Plan, _>(e@),
        },
{
    if !check_roots_match(&output_spec.inputs, roots) {
        return Err(
            TblError::ArgumentError(
                String::from_str("observed roots do not match the declared inputs"),
            ),
        );
    }
    let mut return_inputs: Vec<String> = Vec::new();
    let mut return_outputs: Vec<String> = Vec::new();
    let ghost mut plan = empty_plan();
    let mut i: usize = 0;
    while i < roots.len()
        invariant
            0 <= i <= roots.len(),
            roots_match(output_spec@.inputs, roots@),
            plan_roots(output_spec@, roots@, i as nat) == Ok::<_, Fault>(plan),
            texts(return_inputs@) =~= plan.inputs,
            texts(return_outputs@) =~= plan.outputs,
            plan.inputs.len() == plan.outputs.len(),
        decreases roots.len() - i,
    {
        match plan_one_root(&output_spec, &roots[i]) {
            Ok((mut inputs, mut outputs)) => {
                proof {
                    let found = Plan { inputs: texts(inputs@), outputs: texts(outputs@) };
                    lemma_plan_root_lengths(output_spec@, roots@[i as int]);
                    plan = plan_concat(plan, found);
                }
                return_inputs.append(&mut inputs);
                return_outputs.append(&mut outputs);
            },
            Err(e) => {
                proof {
                    lemma_plan_failure_stays(
                        output_spec@,
                        roots@,
                        (i + 1) as nat,
                        roots.len() as nat,
                    );
                }
                return Err(e);
            },
        }
        i += 1;
    }
    assert(texts(return_inputs@) == plan.inputs);
    assert(texts(return_outputs@) == plan.outputs);
    match find_duplicate_output(&return_outputs) {
        Some(j) => {
            return Err(TblError::DuplicateOutputError(return_outputs[j].clone()));
        },
        None => {},
    }
    assert(plan.outputs.len() == return_outputs.len());
    assert(planned(output_spec@, roots@) == Ok::<_, Fault>(plan));
    if output_spec.sort {
        let order = stable_order(&return_outputs);
        let sorted_inputs = arrange(&return_inputs, &order);
        let sorted_outputs = arrange(&return_outputs, &order);
        proof {
            lemma_arranged_distinct(plan.outputs, order@);
            assert(is_stable_order(order@, plan.outputs) && texts(sorted_inputs@) == arranged(
                plan.inputs,
                order@,
            ) && texts(sorted_outputs@) == arranged(plan.outputs, order@));
            assert(hands_out(texts(sorted_inputs@), texts(sorted_outputs@), plan, true));
            assert(sorted_inputs.len() == sorted_outputs.len());
        }
        Ok((sorted_inputs, sorted_outputs))
    } else {
        assert(hands_out(texts(return_inputs@), texts(return_outputs@), plan, false));
        Ok((return_inputs, return_outputs))
    }
}

/// The plan of a root holds one output for each input.
pub proof fn lemma_plan_root_lengths(spec: SpecModel, root: FsEntry)
    requires
        plan_root(spec, root) is Ok,
    ensures
        plan_root(spec, root)->Ok_0.inputs.len() == plan_root(spec, root)->Ok_0.outputs.len(),
{
    let walked = root.kind == EntryKind::Directory && spec.tree;
    let files = root_inputs(root, spec.tree)->Ok_0;
    lemma_outputs_length(spec, root.path@, walked, files, files.len());
}

/// Converting the first `upto` files gives `upto` outputs.
pub proof fn lemma_outputs_length(
    spec: SpecModel,
    root: Seq<char>,
    walked: bool,
    files: Seq<Seq<char>>,
    upto: nat,
)
    requires
        outputs_for(spec, root, walked, files, upto) is Ok,
        upto <= files.len(),
    ensures
        outputs_for(spec, root, walked, files, upto)->Ok_0.len() == upto,
    decreases upto,
{
    if upto > 0 {
        lemma_outputs_length(spec, root, walked, files, (upto - 1) as nat);
    }
}

/// The ways an output directory can be given.
#[derive(Debug)]
pub enum OutputDirType {
    /// A string literal.
    Str(&'static str),
    /// An owned string.
    String(String),
    /// No output directory.
    Unset,
}

/// The output directory that `dir` stands for, as text.
pub open spec fn output_dir_text(dir: OutputDirType) -> Option<Seq<char>> {
    match dir {
        OutputDirType::Str(s) => Some(s@),
        OutputDirType::String(s) => Some(s@),
        OutputDirType::Unset => None,
    }
}

impl OutputDirType {
    /// The directory as an optional owned path.
    pub fn into_path(self) -> (dir: Option<String>)
        ensures
            opt_text(dir) == output_dir_text(self),
    {
        match self {
            OutputDirType::Str(s) => Some(s.to_owned()),
            OutputDirType::String(s) => Some(s),
            OutputDirType::Unset => None,
        }
    }
}

impl From<OutputDirType> for Option<String> {
    fn from(output_dir: OutputDirType) -> (dir: Option<String>) {
        output_dir.into_path()
    }
}

impl vstd::std_specs::convert::FromSpecImpl<OutputDirType> for Option<String> {
    /// Nothing is claimed through `From`: [`OutputDirType::into_path`]
    /// carries the contract.
    open spec fn obeys_from_spec() -> bool {
        false
    }

    open spec fn from_spec(output_dir: OutputDirType) -> Option<String> {
        None
    }
}

impl From<&'static str> for OutputDirType {
    fn from(s: &'static str) -> (dir: OutputDirType) {
        OutputDirType::Str(s)
    }
}

impl vstd::std_specs::convert::FromSpecImpl<&'static str> for OutputDirType {
    open spec fn obeys_from_spec() -> bool {
        true
    }

    open spec fn from_spec(s: &'static str) -> OutputDirType {
        OutputDirType::Str(s)
    }
}

impl From<String> for OutputDirType {
    fn from(s: String) -> (dir: OutputDirType) {
        OutputDirType::String(s)
    }
}

impl vstd::std_specs::convert::FromSpecImpl<String> for OutputDirType {
    open spec fn obeys_from_spec() -> bool {
        true
    }

    open spec fn from_spec(s: String) -> OutputDirType {
        OutputDirType::String(s)
    }
}

impl<T: Into<OutputDirType>> From<Option<T>> for OutputDirType {
    fn from(opt: Option<T>) -> (dir: OutputDirType) {
        match opt {
            Some(v) => v.into(),
            None => OutputDirType::Unset,
        }
    }
}

impl<T: Into<OutputDirType>> vstd::std_specs::convert::FromSpecImpl<Option<T>> for OutputDirType {
    open spec fn obeys_from_spec() -> bool {
        <T as vstd::std_specs::convert::IntoSpec<OutputDirType>>::obeys_into_spec()
    }

    open spec fn from_spec(opt: Option<T>) -> OutputDirType {
        match opt {
            Some(v) => <T as vstd::std_specs::convert::IntoSpec<OutputDirType>>::into_spec(v),
            None => OutputDirType::Unset,
        }
    }
}

/// The declared inputs of a plan, in any of the forms callers hold them.
#[derive(Debug)]
pub struct InputPaths(pub Option<Vec<String>>);

impl InputPaths {
    /// Owned copies of `paths`.
    pub fn from_strs(paths: &Vec<&str>) -> (inputs: Vec<String>)
        ensures
            inputs.len() == paths.len(),
            forall|i: int| 0 <= i < paths.len() ==> #[trigger] inputs@[i]@ == paths@[i]@,
    {
        let mut inputs: Vec<String> = Vec::new();
        let mut i: usize = 0;
        while i < paths.len()
            invariant
                0 <= i <= paths.len(),
                inputs.len() == i,
                forall|k: int| 0 <= k < i ==> #[trigger] inputs@[k]@ == paths@[k]@,
            decreases paths.len() - i,
        {
            inputs.push(paths[i].to_owned());
            i += 1;
        }
        inputs
    }
}

impl From<Vec<String>> for InputPaths {
    fn from(v: Vec<String>) -> (inputs: InputPaths) {
        InputPaths(Some(v))
    }
}

impl vstd::std_specs::convert::FromSpecImpl<Vec<String>> for InputPaths {
    open spec fn obeys_from_spec() -> bool {
        true
    }

    open spec fn from_spec(v: Vec<String>) -> InputPaths {
        InputPaths(Some(v))
    }
}

impl From<Option<Vec<String>>> for InputPaths {
    fn from(v: Option<Vec<String>>) -> (inputs: InputPaths) {
        InputPaths(v)
    }
}

impl vstd::std_specs::convert::FromSpecImpl<Option<Vec<String>>> for InputPaths {
    open spec fn obeys_from_spec() -> bool {
        true
    }

    open spec fn from_spec(v: Option<Vec<String>>) -> InputPaths {
        InputPaths(v)
    }
}

impl<'a> From<Vec<&'a str>> for InputPaths {
    fn from(v: Vec<&'a str>) -> (inputs: InputPaths) {
        InputPaths(Some(InputPaths::from_strs(&v)))
    }
}

impl<'a> vstd::std_specs::convert::FromSpecImpl<Vec<&'a str>> for InputPaths {
    /// Nothing is claimed through `From`: [`InputPaths::from_strs`] carries
    /// the contract.
    open spec fn obeys_from_spec() -> bool {
        false
    }

    open spec fn from_spec(v: Vec<&'a str>) -> InputPaths {
        InputPaths(None)
    }
}

impl<'a> From<Option<Vec<&'a str>>> for InputPaths {
    fn from(v: Option<Vec<&'a str>>) -> (inputs: InputPaths) {
        match v {
            Some(paths) => InputPaths(Some(InputPaths::from_strs(&paths))),
            None => InputPaths(None),
        }
    }
}

impl<'a> vstd::std_specs::convert::FromSpecImpl<Option<Vec<&'a str>>> for InputPaths {
    /// Nothing is claimed through `From`: [`InputPaths::from_strs`] carries
    /// the contract.
    open spec fn obeys_from_spec() -> bool {
        false
    }

    open spec fn from_spec(v: Option<Vec<&'a str>>) -> InputPaths {
        InputPaths(None)
    }
}

impl Default for OutputPathSpec {
    fn default() -> (spec: OutputPathSpec)
        ensures
            spec == OutputPathSpec::blank(),
    {
        OutputPathSpec {
            inputs: None,
            output_dir: None,
            tree: false,
            file_prefix: None,
            file_postfix: None,
            sort: false,
        }
    }
}

impl OutputPathSpec {
    /// The spec that declares nothing: inputs default to the working
    /// directory and every file is rewritten in place.
    pub open spec fn blank() -> OutputPathSpec {
        OutputPathSpec {
            inputs: None,
            output_dir: None,
            tree: false,
            file_prefix: None,
            file_postfix: None,
            sort: false,
        }
    }

    /// Creates a spec that declares nothing.
    pub fn new() -> (spec: OutputPathSpec)
        ensures
            spec == OutputPathSpec::blank(),
    {
        OutputPathSpec::default()
    }

    /// Sets the declared inputs.
    pub fn inputs<I: Into<InputPaths>>(self, inputs: I) -> (spec: OutputPathSpec)
        ensures
            call_ensures(
                I::into,
                (inputs,),
                InputPaths(spec.inputs),
            ),
            spec.output_dir == self.output_dir,
            spec.tree == self.tree,
            spec.file_prefix == self.file_prefix,
            spec.file_postfix == self.file_postfix,
            spec.sort == self.sort,
    {
        let mut spec = self;
        let given: InputPaths = inputs.into();
        spec.inputs = given.0;
        spec
    }

    /// Sets the output directory.
    pub fn output_dir<T: Into<OutputDirType>>(self, output_dir: T) -> (spec: OutputPathSpec)
        ensures
            exists|dir: OutputDirType|
                call_ensures(T::into, (output_dir,), dir) && opt_text(spec.output_dir)
                    == output_dir_text(dir),
            spec.inputs == self.inputs,
            spec.tree == self.tree,
            spec.file_prefix == self.file_prefix,
            spec.file_postfix == self.file_postfix,
            spec.sort == self.sort,
    {
        let mut spec = self;
        let given: OutputDirType = output_dir.into();
        spec.output_dir = given.into_path();
        spec
    }

    /// Sets whether directories are walked to any depth.
    pub fn tree(self, tree: bool) -> (spec: OutputPathSpec)
        ensures
            spec == (OutputPathSpec { tree, ..self }),
    {
        let mut spec = self;
        spec.tree = tree;
        spec
    }

    /// Sets the text put before the stem of every output file name.
    pub fn file_prefix(self, file_prefix: Option<String>) -> (spec: OutputPathSpec)
        ensures
            spec == (OutputPathSpec { file_prefix, ..self }),
    {
        let mut spec = self;
        spec.file_prefix = file_prefix;
        spec
    }

    /// Sets the text put after the stem of every output file name.
    pub fn file_postfix(self, file_postfix: Option<String>) -> (spec: OutputPathSpec)
        ensures
            spec == (OutputPathSpec { file_postfix, ..self }),
    {
        let mut spec = self;
        spec.file_postfix = file_postfix;
        spec
    }

    /// Sets whether the plan is sorted by output path.
    pub fn sort(self, sort: bool) -> (spec: OutputPathSpec)
        ensures
            spec == (OutputPathSpec { sort, ..self }),
    {
        let mut spec = self;
        spec.sort = sort;
        spec
    }
}

/// The plan of the roots holds, as its inputs, exactly the files that the
/// roots resolve to: no file is planned twice or left out.
pub proof fn lemma_plan_covers_resolved_inputs(spec: SpecModel, roots: Seq<FsEntry>, upto: nat)
    requires
        plan_roots(spec, roots, upto) is Ok,
        upto <= roots.len(),
    ensures
        resolved_inputs(roots, spec.tree, upto) == Ok::<_, Seq<char>>(
            plan_roots(spec, roots, upto)->Ok_0.inputs,
        ),
    decreases upto,
{
    if upto > 0 {
        lemma_plan_covers_resolved_inputs(spec, roots, (upto - 1) as nat);
    }
}

/// Without an output directory, a prefix or a postfix, every file found
/// among the first `upto` is its own output.
pub proof fn lemma_outputs_in_place(
    spec: SpecModel,
    root: Seq<char>,
    walked: bool,
    files: Seq<Seq<char>>,
    upto: nat,
)
    requires
        spec.output_dir is None,
        spec.file_prefix is None,
        spec.file_postfix is None,
        upto <= files.len(),
    ensures
        outputs_for(spec, root, walked, files, upto) == Ok::<_, Fault>(files.take(upto as int)),
    decreases upto,
{
    if upto > 0 {
        lemma_outputs_in_place(spec, root, walked, files, (upto - 1) as nat);
        assert(files.take(upto - 1).push(files[upto - 1]) =~= files.take(upto as int));
    } else {
        assert(files.take(0) =~= Seq::<Seq<char>>::empty());
    }
}

/// With no output directory, no prefix and no postfix the plan is a pure
/// edit in place: every output path is its input path.
pub proof fn lemma_plain_plan_is_in_place(spec: SpecModel, roots: Seq<FsEntry>, upto: nat)
    requires
        spec.output_dir is None,
        spec.file_prefix is None,
        spec.file_postfix is None,
        plan_roots(spec, roots, upto) is Ok,
        upto <= roots.len(),
    ensures
        plan_roots(spec, roots, upto)->Ok_0.outputs == plan_roots(spec, roots, upto)->Ok_0.inputs,
    decreases upto,
{
    if upto > 0 {
        lemma_plain_plan_is_in_place(spec, roots, (upto - 1) as nat);
        let root = roots[upto - 1];
        let walked = root.kind == EntryKind::Directory && spec.tree;
        let files = root_inputs(root, spec.tree)->Ok_0;
        lemma_outputs_in_place(spec, root.path@, walked, files, files.len());
        assert(files.take(files.len() as int) =~= files);
    }
}

/// A root that is missing or cannot be read leaves the roots without a
/// plan, whatever the other roots are: no pair is handed out for the roots
/// before it.
pub proof fn lemma_unreadable_root_refuses_plan(spec: SpecModel, roots: Seq<FsEntry>, k: int, upto: nat)
    requires
        0 <= k < upto <= roots.len(),
        roots[k].kind == EntryKind::Unreadable,
    ensures
        plan_roots(spec, roots, upto) is Err,
    decreases upto,
{
    if k < upto - 1 {
        lemma_unreadable_root_refuses_plan(spec, roots, k, (upto - 1) as nat);
    }
}

/// When the roots before a missing or unreadable root can be planned, the
/// failure is of the `IO` kind and names that root.
pub proof fn lemma_unreadable_root_is_io_fault(spec: SpecModel, roots: Seq<FsEntry>, k: int)
    requires
        roots_match(spec.inputs, roots),
        0 <= k < roots.len(),
        roots[k].kind == EntryKind::Unreadable,
        plan_roots(spec, roots, k as nat) is Ok,
    ensures
        planned(spec, roots) == Err::<Plan, _>(fault(ErrorKind::IO, roots[k].path@)),
{
    assert(plan_roots(spec, roots, (k + 1) as nat) == Err::<Plan, _>(
        fault(ErrorKind::IO, roots[k].path@),
    ));
    lemma_plan_failure_stays(spec, roots, (k + 1) as nat, roots.len());
}

} // verus!
