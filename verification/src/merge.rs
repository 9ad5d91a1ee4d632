//! Merging files of one schema into a single file.
//!
//! A merge is planned from what was observed of each input: its path, its
//! schema and its row count. Inputs whose schemas differ are refused while
//! planning, so that no output is written for them.

use crate::error::{fault, ErrorKind, Fault, TblError};
use crate::paths::{create_tmp_target, texts, tmp_target};
use crate::schema::{name_of_type, FieldModel, Schema};
use vstd::prelude::*;

verus! {

/// A tabular file as observed at scan time: a snapshot, not a live view.
#[derive(Debug)]
pub struct TabularFile {
    pub path: String,
    /// The size of the file on disk, in bytes.
    pub n_bytes: u64,
    pub schema: Schema,
    pub n_rows: u64,
}

/// How a field is written in a report: its name, a colon, its type.
pub open spec fn described_field(field: FieldModel) -> Seq<char> {
    field.name + ": "@ + name_of_type(field.dtype)
}

/// How the first `upto` fields of a schema are written in a report, one
/// after another with commas between them.
pub open spec fn described(schema: Seq<FieldModel>, upto: nat) -> Seq<char>
    decreases upto,
{
    if upto == 0 || upto > schema.len() {
        Seq::empty()
    } else if upto == 1 {
        described_field(schema[0])
    } else {
        described(schema, (upto - 1) as nat) + ", "@ + described_field(schema[upto - 1])
    }
}

/// Writes a schema for a report: `name: type, name: type, ...`.
pub fn describe_schema(schema: &Schema) -> (text: String)
    ensures
        text@ == described(schema@, schema@.len()),
{
    let mut text = String::new();
    let mut i: usize = 0;
    while i < schema.fields.len()
        invariant
            0 <= i <= schema.fields.len(),
            text@ == described(schema@, i as nat),
        decreases schema.fields.len() - i,
    {
        let ghost before = text@;
        if i > 0 {
            text.append(", ");
        }
        let field = &schema.fields[i];
        assert(schema@[i as int] == field@);
        text.append(field.name.as_str());
        text.append(": ");
        let type_text = field.dtype.name();
        text.append(type_text.as_str());
        assert(text@ =~= if i == 0 {
            described_field(schema@[i as int])
        } else {
            before + ", "@ + described_field(schema@[i as int])
        });
        i += 1;
    }
    text
}

/// The report on two files whose schemas differ: both paths, each with its
/// schema.
pub open spec fn mismatch_report(
    first_path: Seq<char>,
    first_schema: Seq<FieldModel>,
    other_path: Seq<char>,
    other_schema: Seq<FieldModel>,
) -> Seq<char> {
    "schemas of files are not equal: "@ + first_path + " ["@ + described(
        first_schema,
        first_schema.len(),
    ) + "] and "@ + other_path + " ["@ + described(other_schema, other_schema.len()) + "]"@
}

/// The first of the first `upto` files whose schema differs from that of
/// the first file.
pub open spec fn first_divergent(files: Seq<TabularFile>, upto: nat) -> Option<int>
    decreases upto,
{
    if upto == 0 || upto > files.len() {
        None
    } else {
        match first_divergent(files, (upto - 1) as nat) {
            Some(i) => Some(i),
            None => if files[upto - 1].schema@ != files[0].schema@ {
                Some(upto - 1)
            } else {
                None
            },
        }
    }
}

/// A divergent file found among the first is still the first one when more
/// files are looked at.
pub proof fn lemma_divergent_stays(files: Seq<TabularFile>, upto: nat, later: nat)
    requires
        first_divergent(files, upto) is Some,
        upto <= later <= files.len(),
    ensures
        first_divergent(files, later) == first_divergent(files, upto),
    decreases later,
{
    if later > upto {
        lemma_divergent_stays(files, upto, (later - 1) as nat);
    }
}

/// Where no file diverges, every file has the schema of the first.
pub proof fn lemma_none_divergent(files: Seq<TabularFile>, upto: nat)
    requires
        first_divergent(files, upto) is None,
        upto <= files.len(),
    ensures
        forall|i: int| 0 <= i < upto ==> (#[trigger] files[i]).schema@ == files[0].schema@,
    decreases upto,
{
    if upto > 0 {
        lemma_none_divergent(files, (upto - 1) as nat);
    }
}

/// Finds the first file whose schema differs from that of the first file.
pub fn find_divergent_schema(files: &Vec<TabularFile>) -> (found: Option<usize>)
    ensures
        match found {
            Some(i) => 0 < i < files.len() && first_divergent(files@, files.len() as nat) == Some(
                i as int,
            ),
            None => first_divergent(files@, files.len() as nat) is None,
        },
{
    let mut i: usize = 0;
    while i < files.len()
        invariant
            0 <= i <= files.len(),
            first_divergent(files@, i as nat) is None,
        decreases files.len() - i,
    {
        if !files[i].schema.same_as(&files[0].schema) {
            proof {
                lemma_divergent_stays(files@, (i + 1) as nat, files.len() as nat);
            }
            return Some(i);
        }
        i += 1;
    }
    None
}

/// The rows of the first `upto` files, added up.
pub open spec fn total_rows(files: Seq<TabularFile>, upto: nat) -> nat
    decreases upto,
{
    if upto == 0 || upto > files.len() {
        0
    } else {
        total_rows(files, (upto - 1) as nat) + files[upto - 1].n_rows as nat
    }
}

/// Adds up the rows of all files.
pub fn count_rows(files: &Vec<TabularFile>) -> (total: u128)
    ensures
        total == total_rows(files@, files.len() as nat),
{
    let mut total: u128 = 0;
    let mut i: usize = 0;
    while i < files.len()
        invariant
            0 <= i <= files.len(),
            total == total_rows(files@, i as nat),
            total <= i * 0xffff_ffff_ffff_ffff,
        decreases files.len() - i,
    {
        assert((i + 1) * 0xffff_ffff_ffff_ffff <= 0xffff_ffff_ffff_ffff * 0xffff_ffff_ffff_ffff)
            by (nonlinear_arith)
            requires
                i + 1 <= 0xffff_ffff_ffff_ffff,
        ;
        assert(i * 0xffff_ffff_ffff_ffff + 0xffff_ffff_ffff_ffff == (i + 1)
            * 0xffff_ffff_ffff_ffff) by (nonlinear_arith);
        total = total + files[i].n_rows as u128;
        i += 1;
    }
    total
}

/// How files are merged into one.
#[derive(Debug)]
pub struct MergePlan {
    /// The files that are read, in the order their rows are written.
    pub inputs: Vec<String>,
    /// The path that holds the result in the end.
    pub output: String,
    /// The path beside `output` that is written to, then renamed.
    pub tmp_output: String,
    /// The schema shared by every input and by the output.
    pub schema: Schema,
    /// The number of rows of the output: the rows of all inputs.
    pub n_rows: u128,
    /// The number of rows read at a time.
    pub batch_size: usize,
}

/// What a [`MergePlan`] stands for.
pub ghost struct MergeModel {
    pub inputs: Seq<Seq<char>>,
    pub output: Seq<char>,
    pub tmp_output: Seq<char>,
    pub schema: Seq<FieldModel>,
    pub n_rows: nat,
    pub batch_size: usize,
}

impl View for MergePlan {
    type V = MergeModel;

    open spec fn view(&self) -> MergeModel {
        MergeModel {
            inputs: texts(self.inputs@),
            output: self.output@,
            tmp_output: self.tmp_output@,
            schema: self.schema@,
            n_rows: self.n_rows as nat,
            batch_size: self.batch_size,
        }
    }
}

/// The paths of a list of files.
pub open spec fn file_paths(files: Seq<TabularFile>) -> Seq<Seq<char>> {
    Seq::new(files.len(), |i: int| files[i].path@)
}

/// The detail of the fault raised when fewer than two files are given.
pub open spec fn too_few_detail() -> Seq<char> {
    "must specify at least 2 files to merge"@
}

/// How `files` are merged into `output`, or why they cannot be.
///
/// The schemas are looked at first: a file whose schema differs from that
/// of the first file is a `Schema` fault that reports both files with
/// their schemas, whatever else is asked. Then fewer than two files, and
/// then a batch size of zero, are `Argument` faults. Otherwise the output
/// takes the common schema and every row of every input, in the order of
/// the list.
pub open spec fn merge_outcome(files: Seq<TabularFile>, output: Seq<char>, batch_size: usize) -> Result<
    MergeModel,
    Fault,
> {
    match first_divergent(files, files.len()) {
        Some(i) => Err(
            fault(
                ErrorKind::Schema,
                mismatch_report(files[0].path@, files[0].schema@, files[i].path@, files[i].schema@),
            ),
        ),
        None => if files.len() < 2 {
            Err(fault(ErrorKind::Argument, too_few_detail()))
        } else if batch_size == 0 {
            Err(fault(ErrorKind::Argument, crate::rewrite::batch_size_detail()))
        } else {
            Ok(
                MergeModel {
                    inputs: file_paths(files),
                    output,
                    tmp_output: tmp_target(output),
                    schema: files[0].schema@,
                    n_rows: total_rows(files, files.len()),
                    batch_size,
                },
            )
        },
    }
}

/// Writes the report on two files whose schemas differ.
pub fn report_mismatch(first: &TabularFile, other: &TabularFile) -> (text: String)
    ensures
        text@ == mismatch_report(first.path@, first.schema@, other.path@, other.schema@),
{
    let mut text = String::from_str("schemas of files are not equal: ");
    text.append(first.path.as_str());
    text.append(" [");
    let first_schema = describe_schema(&first.schema);
    text.append(first_schema.as_str());
    text.append("] and ");
    text.append(other.path.as_str());
    text.append(" [");
    let other_schema = describe_schema(&other.schema);
    text.append(other_schema.as_str());
    text.append("]");
    assert(text@ =~= mismatch_report(first.path@, first.schema@, other.path@, other.schema@));
    text
}

/// Plans merging parquet files into one.
///
/// On success every input has the schema of the first, the plan lists the
/// inputs in the order given, and its row count is the exact sum of the
/// row counts of the inputs. Inputs are only ever read.
///
/// Fails, before any output is written, with a `SchemaError` that reports
/// both divergent files and their schemas when an input's schema differs
/// from that of the first, and else with an `ArgumentError` for fewer than
/// two inputs or a batch size of zero.
pub fn merge_parquets(input_files: &Vec<TabularFile>, output_path: &str, batch_size: usize) -> (out:
    Result<MergePlan, TblError>)
    ensures
        match out {
            Ok(plan) => merge_outcome(input_files@, output_path@, batch_size) == Ok::<_, Fault>(
                plan@,
            ),
            Err(e) => merge_outcome(input_files@, output_path@, batch_size) == Err::<
                MergeModel,
                _,
            >(e@),
        },
{
    match find_divergent_schema(input_files) {
        Some(i) => {
            return Err(TblError::SchemaError(report_mismatch(&input_files[0], &input_files[i])));
        },
        None => {},
    }
    if input_files.len() < 2 {
        return Err(
            TblError::ArgumentError(String::from_str("must specify at least 2 files to merge")),
        );
    }
    if batch_size == 0 {
        return Err(TblError::ArgumentError(String::from_str("batch size must be at least 1")));
    }
    let mut inputs: Vec<String> = Vec::new();
    let mut i: usize = 0;
    while i < input_files.len()
        invariant
            0 <= i <= input_files.len(),
            inputs.len() == i,
            forall|k: int| 0 <= k < i ==> #[trigger] inputs@[k]@ == input_files@[k].path@,
        decreases input_files.len() - i,
    {
        inputs.push(input_files[i].path.clone());
        i += 1;
    }
    assert(texts(inputs@) =~= file_paths(input_files@));
    let plan = MergePlan {
        inputs,
        output: output_path.to_owned(),
        tmp_output: create_tmp_target(output_path),
        schema: input_files[0].schema.clone(),
        n_rows: count_rows(input_files),
        batch_size,
    };
    Ok(plan)
}

/// A file whose schema differs from that of the first file makes some
/// file the first divergent one, at or before it.
pub proof fn lemma_divergent_found(files: Seq<TabularFile>, i: int, upto: nat)
    requires
        0 <= i < upto <= files.len(),
        files[i].schema@ != files[0].schema@,
    ensures
        first_divergent(files, upto) matches Some(k) && 0 < k <= i && files[k].schema@
            != files[0].schema@,
    decreases upto,
{
    if i < upto - 1 {
        lemma_divergent_found(files, i, (upto - 1) as nat);
    } else {
        match first_divergent(files, (upto - 1) as nat) {
            Some(k) => {
                lemma_divergent_is_divergent(files, (upto - 1) as nat);
            },
            None => {},
        }
    }
}

/// The first divergent file lies after the first file and has another
/// schema.
pub proof fn lemma_divergent_is_divergent(files: Seq<TabularFile>, upto: nat)
    requires
        upto <= files.len(),
        first_divergent(files, upto) is Some,
    ensures
        0 < first_divergent(files, upto)->0 < upto,
        files[first_divergent(files, upto)->0].schema@ != files[0].schema@,
    decreases upto,
{
    if upto > 0 {
        if first_divergent(files, (upto - 1) as nat) is Some {
            lemma_divergent_is_divergent(files, (upto - 1) as nat);
        }
    }
}

/// Merging files whose schemas differ fails, so that no output is ever
/// written for them, and the failure reports both divergent files, each
/// with its schema: the first file, and the first file whose schema
/// differs from it.
pub proof fn lemma_divergent_schemas_are_refused(
    files: Seq<TabularFile>,
    output: Seq<char>,
    batch_size: usize,
    i: int,
)
    requires
        0 <= i < files.len(),
        files[i].schema@ != files[0].schema@,
    ensures
        exists|k: int|
            0 < k <= i && files[k].schema@ != files[0].schema@ && merge_outcome(
                files,
                output,
                batch_size,
            ) == Err::<MergeModel, _>(
                fault(
                    ErrorKind::Schema,
                    #[trigger] mismatch_report(
                        files[0].path@,
                        files[0].schema@,
                        files[k].path@,
                        files[k].schema@,
                    ),
                ),
            ),
{
    lemma_divergent_found(files, i, files.len());
    let k = first_divergent(files, files.len())->0;
    assert(merge_outcome(files, output, batch_size) == Err::<MergeModel, _>(
        fault(
            ErrorKind::Schema,
            mismatch_report(files[0].path@, files[0].schema@, files[k].path@, files[k].schema@),
        ),
    ));
}

/// A merge that is planned reads files of one schema, lists them in the
/// order given, and counts for its output the exact sum of their rows.
pub proof fn lemma_merge_counts_every_row(
    files: Seq<TabularFile>,
    output: Seq<char>,
    batch_size: usize,
)
    requires
        merge_outcome(files, output, batch_size) is Ok,
    ensures
        merge_outcome(files, output, batch_size)->Ok_0.n_rows == total_rows(files, files.len()),
        merge_outcome(files, output, batch_size)->Ok_0.inputs == file_paths(files),
        forall|i: int|
            0 <= i < files.len() ==> (#[trigger] files[i]).schema@ == merge_outcome(
                files,
                output,
                batch_size,
            )->Ok_0.schema,
{
    lemma_none_divergent(files, files.len());
}

} // verus!
