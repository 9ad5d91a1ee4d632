//! What the commands decide before any file is touched: where results go,
//! which inputs pair with which outputs, whether to ask before writing,
//! and how the user's column arguments are read.

use crate::error::{fault, ErrorKind, Fault, TblError};
use crate::gather::{get_input_paths, is_listing_of, resolved_inputs, FsEntry};
use crate::outputs::{get_output_paths, hands_out, opt_texts, planned, OutputPathSpec, SpecModel};
use crate::paths::{copy_paths, opt_text, texts};
use crate::schema::{parse_data_type, type_spelled, DataType, FieldModel, Schema, TypeModel};
use crate::text::{split_at_first, split_first};
use vstd::prelude::*;

verus! {

/// Where the result of a data command goes.
#[derive(Debug, Clone, Copy, PartialEq, Eq, Structural)]
pub enum OutputMode {
    PrintToStdout,
    SaveToSingleFile,
    ModifyInplace,
    SaveToDirectory,
    Partition,
    InteractiveLf,
    InteractiveDf,
}

impl OutputMode {
    /// Whether the mode writes files.
    pub fn writes_to_disk(&self) -> (writes: bool)
        ensures
            writes == (*self == OutputMode::SaveToSingleFile || *self
                == OutputMode::SaveToDirectory || *self == OutputMode::ModifyInplace || *self
                == OutputMode::Partition),
    {
        match self {
            OutputMode::SaveToSingleFile => true,
            OutputMode::SaveToDirectory => true,
            OutputMode::ModifyInplace => true,
            OutputMode::Partition => true,
            _ => false,
        }
    }
}

/// The arguments of a data command that decide inputs and outputs.
#[derive(Debug)]
pub struct DataArgs {
    pub paths: Option<Vec<String>>,
    pub tree: bool,
    pub inplace: bool,
    pub output_file: Option<String>,
    pub output_dir: Option<String>,
    pub output_prefix: Option<String>,
    pub output_postfix: Option<String>,
    pub partition: Option<String>,
    pub df: bool,
    pub lf: bool,
    pub confirm: bool,
    pub dry: bool,
}

/// The detail of the fault raised when output options contradict each
/// other.
pub open spec fn one_mode_detail() -> Seq<char> {
    "can only specify one output mode"@
}

/// The output mode that the options select, if they select exactly one.
///
/// With nothing set the result is printed. Each of in-place, output file,
/// output directory, partition and the two interactive modes selects its
/// mode when set alone; partition may come with an output directory. Any
/// other combination selects none.
pub open spec fn selected_mode(args: DataArgs) -> Option<OutputMode> {
    let file = args.output_file is Some;
    let dir = args.output_dir is Some;
    let part = args.partition is Some;
    if !args.inplace && !file && !dir && !part && !args.df && !args.lf {
        Some(OutputMode::PrintToStdout)
    } else if args.inplace && !file && !dir && !part && !args.df && !args.lf {
        Some(OutputMode::ModifyInplace)
    } else if !args.inplace && file && !dir && !part && !args.df && !args.lf {
        Some(OutputMode::SaveToSingleFile)
    } else if !args.inplace && !file && dir && !part && !args.df && !args.lf {
        Some(OutputMode::SaveToDirectory)
    } else if !args.inplace && !file && part && !args.df && !args.lf {
        Some(OutputMode::Partition)
    } else if !args.inplace && !file && !dir && !part && args.df && !args.lf {
        Some(OutputMode::InteractiveDf)
    } else if !args.inplace && !file && !dir && !part && !args.df && args.lf {
        Some(OutputMode::InteractiveLf)
    } else {
        None
    }
}

/// Decides where the result of a data command goes. Options that select
/// more than one mode are an `ArgumentError`.
pub fn decide_output_mode(args: &DataArgs) -> (out: Result<OutputMode, TblError>)
    ensures
        match out {
            Ok(mode) => selected_mode(*args) == Some(mode),
            Err(e) => selected_mode(*args) is None && e@ == fault(
                ErrorKind::Argument,
                one_mode_detail(),
            ),
        },
{
    let file = args.output_file.is_some();
    let dir = args.output_dir.is_some();
    let part = args.partition.is_some();
    if !args.inplace && !file && !dir && !part && !args.df && !args.lf {
        Ok(OutputMode::PrintToStdout)
    } else if args.inplace && !file && !dir && !part && !args.df && !args.lf {
        Ok(OutputMode::ModifyInplace)
    } else if !args.inplace && file && !dir && !part && !args.df && !args.lf {
        Ok(OutputMode::SaveToSingleFile)
    } else if !args.inplace && !file && dir && !part && !args.df && !args.lf {
        Ok(OutputMode::SaveToDirectory)
    } else if !args.inplace && !file && part && !args.df && !args.lf {
        Ok(OutputMode::Partition)
    } else if !args.inplace && !file && !dir && !part && args.df && !args.lf {
        Ok(OutputMode::InteractiveDf)
    } else if !args.inplace && !file && !dir && !part && !args.df && args.lf {
        Ok(OutputMode::InteractiveLf)
    } else {
        Err(TblError::ArgumentError(String::from_str("can only specify one output mode")))
    }
}

/// What is done before files are written.
#[derive(Debug, Clone, Copy, PartialEq, Eq, Structural)]
pub enum Confirmation {
    /// A dry run: stop here, nothing is written.
    DryRun,
    /// Go on without asking.
    Proceed,
    /// Ask the user, and go on only when the answer is yes.
    Ask,
}

/// Whether to ask before going on: a dry run stops in any mode; a mode
/// that writes files asks unless the caller confirmed up front; all other
/// modes go on.
pub open spec fn confirmation_for(mode: OutputMode, dry: bool, confirm: bool) -> Confirmation {
    if dry {
        Confirmation::DryRun
    } else if mode == OutputMode::SaveToSingleFile || mode == OutputMode::SaveToDirectory || mode
        == OutputMode::ModifyInplace {
        if confirm {
            Confirmation::Proceed
        } else {
            Confirmation::Ask
        }
    } else {
        Confirmation::Proceed
    }
}

/// Decides whether the user has to be asked before the command goes on.
pub fn get_user_confirmation(output_mode: &OutputMode, args: &DataArgs) -> (step: Confirmation)
    ensures
        step == confirmation_for(*output_mode, args.dry, args.confirm),
{
    if args.dry {
        return Confirmation::DryRun;
    }
    match output_mode {
        OutputMode::SaveToSingleFile | OutputMode::SaveToDirectory | OutputMode::ModifyInplace => {
            if args.confirm {
                Confirmation::Proceed
            } else {
                Confirmation::Ask
            }
        },
        _ => Confirmation::Proceed,
    }
}

/// The detail of the fault raised when the user does not say yes.
pub open spec fn exiting_detail() -> Seq<char> {
    "exiting"@
}

/// Reads the user's answer: only a plain yes lets the command go on; a no,
/// or a prompt that could not be read, is an `ArgumentError`.
pub fn check_answer(answer: Option<bool>) -> (out: Result<(), TblError>)
    ensures
        match out {
            Ok(_) => answer == Some(true),
            Err(e) => answer != Some(true) && e@ == fault(ErrorKind::Argument, exiting_detail()),
        },
{
    match answer {
        Some(true) => Ok(()),
        _ => Err(TblError::ArgumentError(String::from_str("exiting"))),
    }
}

/// Inputs that are processed together and where their result goes.
pub type InputsOutput = (Vec<String>, Option<String>);

/// What an [`InputsOutput`] stands for.
pub ghost struct WorkUnit {
    pub inputs: Seq<Seq<char>>,
    pub output: Option<Seq<char>>,
}

/// What a list of units stands for.
pub open spec fn work_units(io: Seq<InputsOutput>) -> Seq<WorkUnit> {
    Seq::new(io.len(), |i: int| WorkUnit { inputs: texts(io[i].0@), output: opt_text(io[i].1) })
}

/// All inputs as one unit; no unit at all when there is no input.
pub open spec fn joint_unit(inputs: Seq<Seq<char>>, output: Option<Seq<char>>) -> Seq<WorkUnit> {
    if inputs.len() == 0 {
        Seq::empty()
    } else {
        seq![WorkUnit { inputs, output }]
    }
}

/// One unit for every input, each with its own output.
pub open spec fn single_units(inputs: Seq<Seq<char>>, outputs: Seq<Seq<char>>) -> Seq<WorkUnit> {
    Seq::new(
        inputs.len(),
        |i: int| WorkUnit { inputs: seq![inputs[i]], output: Some(outputs[i]) },
    )
}

/// The output-path spec of a data command that saves to a directory.
pub open spec fn directory_spec(args: DataArgs) -> SpecModel {
    SpecModel {
        inputs: opt_texts(args.paths),
        output_dir: opt_text(args.output_dir),
        tree: args.tree,
        file_prefix: opt_text(args.output_prefix),
        file_postfix: opt_text(args.output_postfix),
        sort: true,
    }
}

/// Whether `units` are the work of a data command in `mode`.
///
/// Inputs are taken in ascending path order. Printing, partitioning and
/// the interactive modes process all inputs together and write no file;
/// saving to a single file processes them together into the output file;
/// editing in place writes every input onto itself; saving to a directory
/// pairs every input with its planned output. Units without inputs are
/// left out.
pub open spec fn is_work_of(
    units: Seq<WorkUnit>,
    mode: OutputMode,
    args: DataArgs,
    roots: Seq<FsEntry>,
) -> bool {
    match mode {
        OutputMode::SaveToDirectory => planned(directory_spec(args), roots) is Ok && exists|
            inputs: Seq<Seq<char>>,
            outputs: Seq<Seq<char>>,
        | #[trigger]
            hands_out(inputs, outputs, planned(directory_spec(args), roots)->Ok_0, true) && units
                == single_units(inputs, outputs),
        _ => resolved_inputs(roots, args.tree, roots.len()) is Ok && exists|
            inputs: Seq<Seq<char>>,
        | #[trigger]
            is_listing_of(inputs, resolved_inputs(roots, args.tree, roots.len())->Ok_0, true)
                && units == match mode {
                OutputMode::SaveToSingleFile => joint_unit(inputs, opt_text(args.output_file)),
                OutputMode::ModifyInplace => single_units(inputs, inputs),
                _ => joint_unit(inputs, None),
            },
    }
}

/// Why a data command in `mode` has no work: resolving the inputs, or for
/// saving to a directory planning the outputs, failed.
pub open spec fn work_failure(mode: OutputMode, args: DataArgs, roots: Seq<FsEntry>) -> Option<
    Fault,
> {
    match mode {
        OutputMode::SaveToDirectory => match planned(directory_spec(args), roots) {
            Err(f) => Some(f),
            Ok(_) => None,
        },
        _ => match resolved_inputs(roots, args.tree, roots.len()) {
            Err(path) => Some(fault(ErrorKind::IO, path)),
            Ok(_) => None,
        },
    }
}

/// Pairs every input with its own output.
pub(crate) fn pair_up(inputs: &Vec<String>, outputs: &Vec<String>) -> (io: Vec<InputsOutput>)
    requires
        inputs.len() == outputs.len(),
    ensures
        work_units(io@) == single_units(texts(inputs@), texts(outputs@)),
{
    let mut io: Vec<InputsOutput> = Vec::new();
    let mut i: usize = 0;
    while i < inputs.len()
        invariant
            0 <= i <= inputs.len(),
            inputs.len() == outputs.len(),
            io.len() == i,
            forall|k: int|
                0 <= k < i ==> (#[trigger] io@[k]).0@.len() == 1 && io@[k].0@[0]@ == inputs@[k]@
                    && opt_text(io@[k].1) == Some(outputs@[k]@),
        decreases inputs.len() - i,
    {
        let mut one: Vec<String> = Vec::new();
        one.push(inputs[i].clone());
        io.push((one, Some(outputs[i].clone())));
        i += 1;
    }
    assert forall|k: int| 0 <= k < io.len() implies work_units(io@)[k] == single_units(
        texts(inputs@),
        texts(outputs@),
    )[k] by {
        assert(texts(io@[k].0@) =~= seq![inputs@[k]@]);
    }
    assert(work_units(io@) =~= single_units(texts(inputs@), texts(outputs@)));
    io
}

/// Puts all inputs into one unit; none when there is no input.
pub fn join_up(inputs: Vec<String>, output: Option<String>) -> (io: Vec<InputsOutput>)
    ensures
        work_units(io@) == joint_unit(texts(inputs@), opt_text(output)),
{
    let mut io: Vec<InputsOutput> = Vec::new();
    if inputs.len() > 0 {
        io.push((inputs, output));
        assert(work_units(io@) =~= joint_unit(texts(inputs@), opt_text(output)));
    } else {
        assert(work_units(io@) =~= joint_unit(texts(inputs@), opt_text(output)));
    }
    io
}

/// Gathers the inputs of a data command and where their results go.
///
/// `roots` is what was found on disk at each path of `args`, or at the
/// working directory when `args` names none.
pub fn gather_inputs_and_outputs(
    output_mode: &OutputMode,
    args: &DataArgs,
    roots: &Vec<FsEntry>,
) -> (out: Result<Vec<InputsOutput>, TblError>)
    ensures
        match out {
            Ok(io) => is_work_of(work_units(io@), *output_mode, *args, roots@),
            Err(e) => work_failure(*output_mode, *args, roots@) == Some(e@),
        },
{
    match output_mode {
        OutputMode::SaveToDirectory => {
            let output_spec = OutputPathSpec {
                inputs: match &args.paths {
                    Some(paths) => Some(copy_paths(paths)),
                    None => None,
                },
                output_dir: args.output_dir.clone(),
                tree: args.tree,
                file_prefix: args.output_prefix.clone(),
                file_postfix: args.output_postfix.clone(),
                sort: true,
            };
            assert(output_spec@ == directory_spec(*args));
            match get_output_paths(output_spec, roots) {
                Ok((inputs, outputs)) => {
                    let io = pair_up(&inputs, &outputs);
                    assert(hands_out(
                        texts(inputs@),
                        texts(outputs@),
                        planned(directory_spec(*args), roots@)->Ok_0,
                        true,
                    ) && work_units(io@) == single_units(texts(inputs@), texts(outputs@)));
                    Ok(io)
                },
                Err(e) => Err(e),
            }
        },
        OutputMode::SaveToSingleFile => {
            match get_input_paths(roots, args.tree, true) {
                Ok(inputs) => {
                    let ghost listed = texts(inputs@);
                    let io = join_up(inputs, args.output_file.clone());
                    assert(is_listing_of(
                        listed,
                        resolved_inputs(roots@, args.tree, roots.len() as nat)->Ok_0,
                        true,
                    ) && work_units(io@) == joint_unit(listed, opt_text(args.output_file)));
                    Ok(io)
                },
                Err(e) => Err(e),
            }
        },
        OutputMode::ModifyInplace => {
            match get_input_paths(roots, args.tree, true) {
                Ok(inputs) => {
                    let io = pair_up(&inputs, &inputs);
                    assert(is_listing_of(
                        texts(inputs@),
                        resolved_inputs(roots@, args.tree, roots.len() as nat)->Ok_0,
                        true,
                    ) && work_units(io@) == single_units(texts(inputs@), texts(inputs@)));
                    Ok(io)
                },
                Err(e) => Err(e),
            }
        },
        _ => {
            match get_input_paths(roots, args.tree, true) {
                Ok(inputs) => {
                    let ghost listed = texts(inputs@);
                    let io = join_up(inputs, None);
                    assert(is_listing_of(
                        listed,
                        resolved_inputs(roots@, args.tree, roots.len() as nat)->Ok_0,
                        true,
                    ) && work_units(io@) == joint_unit(listed, None));
                    Ok(io)
                },
                Err(e) => Err(e),
            }
        },
    }
}

/// The detail of the fault raised when names and types do not pair up.
pub open spec fn even_detail() -> Seq<char> {
    "Input vector must have an even number of elements"@
}

/// The names and types that the first `upto` pairs of `input` spell, or
/// the first fault met: a `Schema` fault about the spelling of a type that
/// cannot be created.
pub open spec fn spelled_columns(input: Seq<Seq<char>>, upto: nat) -> Result<
    (Seq<Seq<char>>, Seq<TypeModel>),
    Fault,
>
    decreases upto,
{
    if upto == 0 || 2 * upto > input.len() {
        Ok((Seq::empty(), Seq::empty()))
    } else {
        match spelled_columns(input, (upto - 1) as nat) {
            Err(f) => Err(f),
            Ok((names, dtypes)) => match type_spelled(input[2 * upto - 1]) {
                Some(dtype) => Ok((names.push(input[2 * upto - 2]), dtypes.push(dtype))),
                None => Err(fault(ErrorKind::Schema, input[2 * upto - 1])),
            },
        }
    }
}

/// A fault met among the first pairs is still the fault when more pairs
/// are read.
pub proof fn lemma_spelled_failure_stays(input: Seq<Seq<char>>, upto: nat, later: nat)
    requires
        spelled_columns(input, upto) is Err,
        upto <= later,
        2 * later <= input.len(),
    ensures
        spelled_columns(input, later) == spelled_columns(input, upto),
    decreases later,
{
    if later > upto {
        lemma_spelled_failure_stays(input, upto, (later - 1) as nat);
    }
}

/// What the user's list of names and types spells, or why it spells
/// nothing: an odd number of elements is an `Argument` fault.
pub open spec fn user_columns(input: Seq<Seq<char>>) -> Result<
    (Seq<Seq<char>>, Seq<TypeModel>),
    Fault,
> {
    if input.len() % 2 != 0 {
        Err(fault(ErrorKind::Argument, even_detail()))
    } else {
        spelled_columns(input, input.len() / 2)
    }
}

/// Reads the new columns a user asked for, given as a flat list of names
/// and types in turn: `name type name type ...`.
///
/// Types are spelled as [`type_spelled`] says. A type outside the
/// supported set is refused here, before any file is touched.
pub fn parse_user_dtypes(input: &Vec<String>) -> (out: Result<
    (Vec<String>, Vec<DataType>),
    TblError,
>)
    ensures
        match out {
            Ok((names, dtypes)) => user_columns(texts(input@)) == Ok::<_, Fault>(
                (texts(names@), crate::rewrite::type_models(dtypes@)),
            ),
            Err(e) => user_columns(texts(input@)) == Err::<(Seq<Seq<char>>, Seq<TypeModel>), _>(
                e@,
            ),
        },
{
    if input.len() % 2 != 0 {
        return Err(
            TblError::ArgumentError(
                String::from_str("Input vector must have an even number of elements"),
            ),
        );
    }
    let ghost given = texts(input@);
    let n = input.len() / 2;
    let mut column_names: Vec<String> = Vec::new();
    let mut column_dtypes: Vec<DataType> = Vec::new();
    let ghost mut names: Seq<Seq<char>> = Seq::empty();
    let ghost mut dtypes: Seq<TypeModel> = Seq::empty();
    let mut k: usize = 0;
    while k < n
        invariant
            0 <= k <= n,
            2 * n == input.len(),
            given == texts(input@),
            spelled_columns(given, k as nat) == Ok::<_, Fault>((names, dtypes)),
            texts(column_names@) =~= names,
            crate::rewrite::type_models(column_dtypes@) =~= dtypes,
        decreases n - k,
    {
        assert(given[2 * k] == input@[2 * k]@);
        assert(given[2 * k + 1] == input@[2 * k + 1]@);
        match parse_data_type(input[2 * k + 1].as_str()) {
            Some(dtype) => {
                proof {
                    names = names.push(given[2 * k]);
                    dtypes = dtypes.push(dtype@);
                }
                column_names.push(input[2 * k].clone());
                column_dtypes.push(dtype);
            },
            None => {
                proof {
                    lemma_spelled_failure_stays(given, (k + 1) as nat, n as nat);
                }
                return Err(TblError::SchemaError(input[2 * k + 1].clone()));
            },
        }
        k += 1;
    }
    assert(texts(column_names@) == names);
    assert(crate::rewrite::type_models(column_dtypes@) == dtypes);
    Ok((column_names, column_dtypes))
}

/// A new column as the user wrote it.
#[derive(Debug)]
pub struct NewColumnExpr {
    pub name: String,
    pub dtype: DataType,
    pub default_value: Option<String>,
}

/// What a [`NewColumnExpr`] stands for.
pub ghost struct NewColumnModel {
    pub name: Seq<char>,
    pub dtype: TypeModel,
    pub default_value: Option<Seq<char>>,
}

impl View for NewColumnExpr {
    type V = NewColumnModel;

    open spec fn view(&self) -> NewColumnModel {
        NewColumnModel {
            name: self.name@,
            dtype: self.dtype@,
            default_value: opt_text(self.default_value),
        }
    }
}

/// What `name:type[=default]` spells.
///
/// The name is what stands before the first colon. What follows is the
/// type, up to the first equals sign if there is one, and after that sign
/// the default, which may hold any character. Text without a colon is an
/// `Argument` fault about the text; a type that cannot be created is a
/// `Schema` fault about its spelling.
pub open spec fn column_spelled(text: Seq<char>) -> Result<NewColumnModel, Fault> {
    match split_first(text, ':') {
        None => Err(fault(ErrorKind::Argument, text)),
        Some((name, rest)) => {
            let (spelling, default_value) = match split_first(rest, '=') {
                Some((before, after)) => (before, Some(after)),
                None => (rest, None),
            };
            match type_spelled(spelling) {
                Some(dtype) => Ok(NewColumnModel { name, dtype, default_value }),
                None => Err(fault(ErrorKind::Schema, spelling)),
            }
        },
    }
}

/// Reads a new column written as `name:type[=default]`.
pub fn parse_new_column_expr(col_spec: &str) -> (out: Result<NewColumnExpr, TblError>)
    ensures
        match out {
            Ok(column) => column_spelled(col_spec@) == Ok::<_, Fault>(column@),
            Err(e) => column_spelled(col_spec@) == Err::<NewColumnModel, _>(e@),
        },
{
    match split_at_first(col_spec, ':') {
        None => Err(TblError::ArgumentError(col_spec.to_owned())),
        Some((name, rest)) => {
            let (spelling, default_value) = match split_at_first(rest.as_str(), '=') {
                Some((before, after)) => (before, Some(after)),
                None => (rest, None),
            };
            match parse_data_type(spelling.as_str()) {
                Some(dtype) => Ok(NewColumnExpr { name, dtype, default_value }),
                None => Err(TblError::SchemaError(spelling)),
            }
        },
    }
}

/// The report on a file that lacks a column.
pub open spec fn missing_column_report(column: Seq<char>, path: Seq<char>) -> Seq<char> {
    "File does not contain column "@ + column + ": "@ + path
}

/// The first file among the first `upto` that lacks one of `columns`,
/// with the first column it lacks.
pub open spec fn first_lacking(
    schemas: Seq<Seq<FieldModel>>,
    columns: Seq<Seq<char>>,
    upto: nat,
) -> Option<(int, int)>
    decreases upto,
{
    if upto == 0 || upto > schemas.len() {
        None
    } else {
        match first_lacking(schemas, columns, (upto - 1) as nat) {
            Some(found) => Some(found),
            None => match crate::edits::first_missing(schemas[upto - 1], columns, columns.len()) {
                Some(c) => Some((upto - 1, c)),
                None => None,
            },
        }
    }
}

/// A lacking file found among the first is still the first one when more
/// files are looked at.
pub proof fn lemma_lacking_stays(
    schemas: Seq<Seq<FieldModel>>,
    columns: Seq<Seq<char>>,
    upto: nat,
    later: nat,
)
    requires
        first_lacking(schemas, columns, upto) is Some,
        upto <= later <= schemas.len(),
    ensures
        first_lacking(schemas, columns, later) == first_lacking(schemas, columns, upto),
    decreases later,
{
    if later > upto {
        lemma_lacking_stays(schemas, columns, upto, (later - 1) as nat);
    }
}

/// Checks, before any file is touched, that every file holds every column
/// that is to be dropped.
///
/// `schemas` holds the schema of each input, file by file. The first file
/// that lacks a column is a `SchemaError` that names the column and the
/// file; schemas and inputs that differ in number are an `ArgumentError`.
pub fn check_columns_exist(inputs: &Vec<String>, schemas: &Vec<Schema>, columns: &Vec<String>) -> (out:
    Result<(), TblError>)
    ensures
        match out {
            Ok(_) => inputs.len() == schemas.len() && first_lacking(
                crate::rewrite::schema_models(schemas@),
                texts(columns@),
                schemas.len() as nat,
            ) is None,
            Err(e) => if inputs.len() != schemas.len() {
                e@ == fault(ErrorKind::Argument, crate::rewrite::schemas_detail())
            } else {
                first_lacking(
                    crate::rewrite::schema_models(schemas@),
                    texts(columns@),
                    schemas.len() as nat,
                ) matches Some((file, column)) && e@ == fault(
                    ErrorKind::Schema,
                    missing_column_report(texts(columns@)[column], texts(inputs@)[file]),
                )
            },
        },
{
    if inputs.len() != schemas.len() {
        return Err(
            TblError::ArgumentError(
                String::from_str("Number of schemas must match number of inputs"),
            ),
        );
    }
    let ghost found = crate::rewrite::schema_models(schemas@);
    let mut i: usize = 0;
    while i < schemas.len()
        invariant
            0 <= i <= schemas.len(),
            inputs.len() == schemas.len(),
            found == crate::rewrite::schema_models(schemas@),
            first_lacking(found, texts(columns@), i as nat) is None,
        decreases schemas.len() - i,
    {
        assert(found[i as int] == schemas@[i as int]@);
        match crate::edits::find_missing_column(&schemas[i], columns) {
            Some(c) => {
                proof {
                    lemma_lacking_stays(found, texts(columns@), (i + 1) as nat, found.len());
                    assert(texts(columns@)[c as int] == columns@[c as int]@);
                    assert(texts(inputs@)[i as int] == inputs@[i as int]@);
                }
                let mut report = String::from_str("File does not contain column ");
                report.append(columns[c].as_str());
                report.append(": ");
                report.append(inputs[i].as_str());
                assert(report@ =~= missing_column_report(columns@[c as int]@, inputs@[i as int]@));
                return Err(TblError::SchemaError(report));
            },
            None => {},
        }
        i += 1;
    }
    Ok(())
}

/// The number of paths shown at either end of a long list.
pub const PREVIEW_EDGE: usize = 5;

/// The longest list of paths that is shown in full.
pub const PREVIEW_FULL: usize = 10;

/// The lines that show a list of paths before files are written: every
/// path of a short list; of a long one the first five, a line of dots, and
/// the last five.
pub open spec fn preview(paths: Seq<Seq<char>>) -> Seq<Seq<char>> {
    if paths.len() <= PREVIEW_FULL {
        paths
    } else {
        paths.subrange(0, PREVIEW_EDGE as int).push("..."@) + paths.subrange(
            paths.len() - PREVIEW_EDGE,
            paths.len() as int,
        )
    }
}

/// Picks the paths that are shown to the user before files are written.
pub fn preview_paths(paths: &Vec<String>) -> (lines: Vec<String>)
    ensures
        texts(lines@) == preview(texts(paths@)),
{
    if paths.len() <= PREVIEW_FULL {
        return copy_paths(paths);
    }
    let ghost all = texts(paths@);
    let mut lines: Vec<String> = Vec::new();
    let mut i: usize = 0;
    while i < PREVIEW_EDGE
        invariant
            0 <= i <= PREVIEW_EDGE,
            paths.len() > PREVIEW_FULL,
            all == texts(paths@),
            lines.len() == i,
            texts(lines@) =~= all.subrange(0, i as int),
        decreases PREVIEW_EDGE - i,
    {
        assert(all[i as int] == paths@[i as int]@);
        lines.push(paths[i].clone());
        i += 1;
    }
    lines.push(String::from_str("..."));
    let start = paths.len() - PREVIEW_EDGE;
    let mut j: usize = start;
    while j < paths.len()
        invariant
            start <= j <= paths.len(),
            start == paths.len() - PREVIEW_EDGE,
            paths.len() > PREVIEW_FULL,
            all == texts(paths@),
            lines.len() == PREVIEW_EDGE + 1 + (j - start),
            texts(lines@) =~= all.subrange(0, PREVIEW_EDGE as int).push("..."@) + all.subrange(
                start as int,
                j as int,
            ),
        decreases paths.len() - j,
    {
        assert(all[j as int] == paths@[j as int]@);
        let ghost before = texts(lines@);
        lines.push(paths[j].clone());
        assert(texts(lines@) =~= before.push(all[j as int]));
        assert(all.subrange(start as int, j + 1) =~= all.subrange(start as int, j as int).push(
            all[j as int],
        ));
        j += 1;
    }
    lines
}

/// Whether `text` holds a colon.
pub open spec fn has_colon(text: Seq<char>) -> bool {
    split_first(text, ':') is Some
}

/// Whether one of the texts holds a colon.
pub open spec fn some_has_colon(input: Seq<Seq<char>>) -> bool {
    exists|k: int| 0 <= k < input.len() && has_colon(#[trigger] input[k])
}

/// The new columns that the first `upto` texts spell, each written as
/// `name:type[=default]`, or the first fault met.
pub open spec fn spelled_exprs(input: Seq<Seq<char>>, upto: nat) -> Result<Seq<NewColumnModel>, Fault>
    decreases upto,
{
    if upto == 0 || upto > input.len() {
        Ok(Seq::empty())
    } else {
        match spelled_exprs(input, (upto - 1) as nat) {
            Err(f) => Err(f),
            Ok(before) => match column_spelled(input[upto - 1]) {
                Ok(column) => Ok(before.push(column)),
                Err(f) => Err(f),
            },
        }
    }
}

/// A fault met among the first texts is still the fault when more texts
/// are read.
pub proof fn lemma_exprs_failure_stays(input: Seq<Seq<char>>, upto: nat, later: nat)
    requires
        spelled_exprs(input, upto) is Err,
        upto <= later <= input.len(),
    ensures
        spelled_exprs(input, later) == spelled_exprs(input, upto),
    decreases later,
{
    if later > upto {
        lemma_exprs_failure_stays(input, upto, (later - 1) as nat);
    }
}

/// The names of new columns.
pub open spec fn column_names(columns: Seq<NewColumnModel>) -> Seq<Seq<char>> {
    Seq::new(columns.len(), |i: int| columns[i].name)
}

/// The types of new columns.
pub open spec fn column_types(columns: Seq<NewColumnModel>) -> Seq<TypeModel> {
    Seq::new(columns.len(), |i: int| columns[i].dtype)
}

/// The defaults of new columns that all have one.
pub open spec fn column_defaults(columns: Seq<NewColumnModel>) -> Seq<Seq<char>> {
    Seq::new(columns.len(), |i: int| columns[i].default_value->0)
}

/// Whether no new column was written with a default.
pub open spec fn none_has_default(columns: Seq<NewColumnModel>) -> bool {
    forall|i: int| 0 <= i < columns.len() ==> (#[trigger] columns[i]).default_value is None
}

/// Whether every new column was written with a default.
pub open spec fn all_have_default(columns: Seq<NewColumnModel>) -> bool {
    forall|i: int| 0 <= i < columns.len() ==> (#[trigger] columns[i]).default_value is Some
}

/// The detail of the fault raised when some new columns have a default
/// and others have none, or defaults are given twice.
pub open spec fn mixed_defaults_detail() -> Seq<char> {
    "give a default for every new column or for none"@
}

/// The names, types and defaults that the user's new columns spell, or why
/// they spell nothing.
///
/// Where no text holds a colon the texts are names and types in turn, and
/// the defaults are those given beside them. Otherwise every text is read
/// as `name:type[=default]`: when none of them writes a default the
/// defaults are those given beside them; when all of them do and none is
/// given beside them, the defaults are those written; any other mix is an
/// `Argument` fault.
pub open spec fn new_columns_read(input: Seq<Seq<char>>, defaults: Option<Seq<Seq<char>>>) -> Result<
    (Seq<Seq<char>>, Seq<TypeModel>, Option<Seq<Seq<char>>>),
    Fault,
> {
    if !some_has_colon(input) {
        match user_columns(input) {
            Ok((names, dtypes)) => Ok((names, dtypes, defaults)),
            Err(f) => Err(f),
        }
    } else {
        match spelled_exprs(input, input.len()) {
            Err(f) => Err(f),
            Ok(columns) => if none_has_default(columns) {
                Ok((column_names(columns), column_types(columns), defaults))
            } else if all_have_default(columns) && defaults is None {
                Ok((column_names(columns), column_types(columns), Some(column_defaults(columns))))
            } else {
                Err(fault(ErrorKind::Argument, mixed_defaults_detail()))
            },
        }
    }
}

/// Reads the new columns of an insert, written either as
/// `name:type[=default]` each or as names and types in turn, together
/// with the defaults given beside them.
pub fn read_new_columns(new_columns: &Vec<String>, defaults: &Option<Vec<String>>) -> (out: Result<
    (Vec<String>, Vec<DataType>, Option<Vec<String>>),
    TblError,
>)
    ensures
        match out {
            Ok((names, dtypes, read_defaults)) => new_columns_read(
                texts(new_columns@),
                opt_texts(*defaults),
            ) == Ok::<_, Fault>(
                (texts(names@), crate::rewrite::type_models(dtypes@), opt_texts(read_defaults)),
            ),
            Err(e) => new_columns_read(texts(new_columns@), opt_texts(*defaults)) == Err::<
                (Seq<Seq<char>>, Seq<TypeModel>, Option<Seq<Seq<char>>>),
                _,
            >(e@),
        },
{
    let ghost input = texts(new_columns@);
    let mut with_colon = false;
    let mut c: usize = 0;
    while c < new_columns.len() && !with_colon
        invariant
            0 <= c <= new_columns.len(),
            input == texts(new_columns@),
            !with_colon ==> forall|k: int| 0 <= k < c ==> !has_colon(#[trigger] input[k]),
            with_colon ==> some_has_colon(input),
        decreases new_columns.len() - c, (if with_colon { 0int } else { 1int }),
    {
        assert(input[c as int] == new_columns@[c as int]@);
        match crate::text::find_char(new_columns[c].as_str(), ':') {
            Some(_) => {
                assert(has_colon(input[c as int]));
                with_colon = true;
            },
            None => {
                c += 1;
            },
        }
    }
    if !with_colon {
        return match parse_user_dtypes(new_columns) {
            Ok((names, dtypes)) => {
                let given = match defaults {
                    Some(list) => Some(copy_paths(list)),
                    None => None,
                };
                Ok((names, dtypes, given))
            },
            Err(e) => Err(e),
        };
    }
    let mut names: Vec<String> = Vec::new();
    let mut dtypes: Vec<DataType> = Vec::new();
    let mut written: Vec<String> = Vec::new();
    let mut any_written = false;
    let mut any_bare = false;
    let ghost mut columns: Seq<NewColumnModel> = Seq::empty();
    let mut i: usize = 0;
    while i < new_columns.len()
        invariant
            0 <= i <= new_columns.len(),
            input == texts(new_columns@),
            some_has_colon(input),
            spelled_exprs(input, i as nat) == Ok::<_, Fault>(columns),
            columns.len() == i,
            names.len() == i,
            dtypes.len() == i,
            forall|k: int| 0 <= k < i ==> #[trigger] names@[k]@ == columns[k].name,
            forall|k: int| 0 <= k < i ==> #[trigger] dtypes@[k]@ == columns[k].dtype,
            any_written == !none_has_default(columns),
            any_bare == !all_have_default(columns),
            !any_bare ==> written.len() == i && forall|k: int|
                0 <= k < i ==> #[trigger] written@[k]@ == columns[k].default_value->0,
        decreases new_columns.len() - i,
    {
        assert(input[i as int] == new_columns@[i as int]@);
        match parse_new_column_expr(new_columns[i].as_str()) {
            Ok(column) => {
                let ghost before = columns;
                proof {
                    columns = columns.push(column@);
                    assert(columns[i as int] == column@);
                    assert forall|k: int| 0 <= k < i implies columns[k] == before[k] by {}
                    if !none_has_default(before) {
                        let k = choose|k: int|
                            0 <= k < before.len() && !((#[trigger] before[k]).default_value is None);
                        assert(columns[k] == before[k]);
                    }
                    if !all_have_default(before) {
                        let k = choose|k: int|
                            0 <= k < before.len() && !((#[trigger] before[k]).default_value is Some);
                        assert(columns[k] == before[k]);
                    }
                }
                names.push(column.name);
                dtypes.push(column.dtype);
                match column.default_value {
                    Some(text) => {
                        any_written = true;
                        written.push(text);
                    },
                    None => {
                        any_bare = true;
                    },
                }
            },
            Err(e) => {
                proof {
                    lemma_exprs_failure_stays(input, (i + 1) as nat, input.len());
                }
                return Err(e);
            },
        }
        i += 1;
    }
    assert(texts(names@) =~= column_names(columns));
    assert(crate::rewrite::type_models(dtypes@) =~= column_types(columns));
    if !any_written {
        let given = match defaults {
            Some(list) => Some(copy_paths(list)),
            None => None,
        };
        Ok((names, dtypes, given))
    } else if !any_bare && defaults.is_none() {
        assert(texts(written@) =~= column_defaults(columns));
        Ok((names, dtypes, Some(written)))
    } else {
        Err(
            TblError::ArgumentError(
                String::from_str("give a default for every new column or for none"),
            ),
        )
    }
}

} // verus!
