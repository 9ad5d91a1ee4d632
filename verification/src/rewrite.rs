//! Planning the rewrite of one file, or of many: dropping columns and
//! inserting columns.
//!
//! A plan is worked out from the schema observed when the file was opened
//! and fixes, before a single row is read, the one schema of every batch
//! that will be written, where each output column comes from, and the
//! temporary path that takes the output until it is renamed into place.
//! Every argument is checked while planning, so that no file is touched
//! when one of them is wrong.

use crate::columns::{column_fill, parse_default, ColumnValue, ValueModel};
use crate::edits::{
    drop_layout, find_missing_column, first_missing, insert_layout, insert_slots, kept_slots,
    lay_out_schema, positions_fit, with_columns, without_columns, Slot,
};
use crate::error::{fault, ErrorKind, Fault, TblError};
use crate::outputs::opt_texts;
use crate::paths::{create_tmp_target, texts, tmp_target};
use crate::schema::{DataType, Field, FieldModel, Schema, TypeModel};
use vstd::prelude::*;

verus! {

/// The number of rows read at a time where the caller names none.
pub const DEFAULT_BATCH_SIZE: usize = 1_000_000;

/// The number of files rewritten at a time where the caller names none.
pub const DEFAULT_MAX_CONCURRENT: usize = 16;

/// How one file is rewritten.
#[derive(Debug)]
pub struct RewritePlan {
    /// The file that is read.
    pub input: String,
    /// The path that holds the result in the end.
    pub output: String,
    /// The path beside `output` that is written to, then renamed.
    pub tmp_output: String,
    /// The schema of the output and of every batch written to it.
    pub schema: Schema,
    /// Where each column of the output comes from.
    pub layout: Vec<Slot>,
    /// What fills each new column, in the order of the insert list.
    pub new_columns: Vec<ColumnValue>,
    /// The number of rows read at a time.
    pub batch_size: usize,
}

/// What new columns stand for.
pub open spec fn value_models(values: Seq<ColumnValue>) -> Seq<ValueModel> {
    Seq::new(values.len(), |i: int| values[i]@)
}

/// What a [`RewritePlan`] stands for.
pub ghost struct RewriteModel {
    pub input: Seq<char>,
    pub output: Seq<char>,
    pub tmp_output: Seq<char>,
    pub schema: Seq<FieldModel>,
    pub layout: Seq<Slot>,
    pub new_columns: Seq<ValueModel>,
    pub batch_size: usize,
}

impl View for RewritePlan {
    type V = RewriteModel;

    open spec fn view(&self) -> RewriteModel {
        RewriteModel {
            input: self.input@,
            output: self.output@,
            tmp_output: self.tmp_output@,
            schema: self.schema@,
            layout: self.layout@,
            new_columns: value_models(self.new_columns@),
            batch_size: self.batch_size,
        }
    }
}

/// The detail of the fault raised for a batch size of zero.
pub open spec fn batch_size_detail() -> Seq<char> {
    "batch size must be at least 1"@
}

/// How `columns` are dropped from a file, or why they cannot be.
///
/// A batch size of zero is refused first. Every column to drop must exist
/// in the schema: the first that does not is a `Schema` fault about its
/// name. Otherwise the new schema is the old one without the dropped
/// fields, and the layout copies every other column through unchanged.
pub open spec fn drop_outcome(
    input: Seq<char>,
    output: Seq<char>,
    schema: Seq<FieldModel>,
    columns: Seq<Seq<char>>,
    batch_size: usize,
) -> Result<RewriteModel, Fault> {
    if batch_size == 0 {
        Err(fault(ErrorKind::Argument, batch_size_detail()))
    } else {
        match first_missing(schema, columns, columns.len()) {
            Some(i) => Err(fault(ErrorKind::Schema, columns[i])),
            None => Ok(
                RewriteModel {
                    input,
                    output,
                    tmp_output: tmp_target(output),
                    schema: without_columns(schema, columns),
                    layout: kept_slots(schema, columns, schema.len()),
                    new_columns: Seq::empty(),
                    batch_size,
                },
            ),
        }
    }
}

/// Plans dropping columns from a parquet file.
///
/// `schema` is the schema found on opening `input_path`. Dropping a column
/// that the schema does not hold is never a silent no-op: it fails with a
/// `SchemaError` naming the first such column, before anything is written.
pub fn drop_parquet_columns(
    input_path: String,
    output_path: String,
    schema: &Schema,
    columns_to_drop: &Vec<String>,
    batch_size: usize,
) -> (out: Result<RewritePlan, TblError>)
    ensures
        match out {
            Ok(plan) => drop_outcome(
                input_path@,
                output_path@,
                schema@,
                texts(columns_to_drop@),
                batch_size,
            ) == Ok::<_, Fault>(plan@),
            Err(e) => drop_outcome(
                input_path@,
                output_path@,
                schema@,
                texts(columns_to_drop@),
                batch_size,
            ) == Err::<RewriteModel, _>(e@),
        },
        first_missing(schema@, texts(columns_to_drop@), columns_to_drop.len() as nat) is Some
            ==> out is Err,
{
    if batch_size == 0 {
        return Err(TblError::ArgumentError(String::from_str("batch size must be at least 1")));
    }
    match find_missing_column(schema, columns_to_drop) {
        Some(i) => {
            assert(texts(columns_to_drop@)[i as int] == columns_to_drop@[i as int]@);
            return Err(TblError::SchemaError(columns_to_drop[i].clone()));
        },
        None => {},
    }
    let layout = drop_layout(schema, columns_to_drop);
    let no_fields: Vec<Field> = Vec::new();
    let new_schema = lay_out_schema(&layout, schema, &no_fields);
    let tmp_output = create_tmp_target(output_path.as_str());
    proof {
        assert(schema@.len() == schema.fields.len());
        crate::edits::lemma_kept_slots_lay_out_remaining(
            schema@,
            texts(columns_to_drop@),
            schema@.len(),
        );
        assert(crate::schema::field_models(no_fields@) =~= Seq::<FieldModel>::empty());
    }
    let plan = RewritePlan {
        input: input_path,
        output: output_path,
        tmp_output,
        schema: new_schema,
        layout,
        new_columns: Vec::new(),
        batch_size,
    };
    assert(value_models(plan.new_columns@) =~= Seq::<ValueModel>::empty());
    Ok(plan)
}

/// The default of the `k`-th new column, if defaults were given.
pub open spec fn default_at(defaults: Option<Seq<Seq<char>>>, k: int) -> Option<Seq<char>> {
    match defaults {
        Some(texts) => Some(texts[k]),
        None => None,
    }
}

/// What fills the first `upto` new columns, or the first fault met.
pub open spec fn fills(
    dtypes: Seq<TypeModel>,
    defaults: Option<Seq<Seq<char>>>,
    upto: nat,
) -> Result<Seq<ValueModel>, Fault>
    decreases upto,
{
    if upto == 0 || upto > dtypes.len() {
        Ok(Seq::empty())
    } else {
        match fills(dtypes, defaults, (upto - 1) as nat) {
            Err(f) => Err(f),
            Ok(before) => match column_fill(dtypes[upto - 1], default_at(defaults, upto - 1)) {
                Ok(value) => Ok(before.push(value)),
                Err(f) => Err(f),
            },
        }
    }
}

/// A fault met among the first new columns is still the fault when more
/// columns are read.
pub proof fn lemma_fills_failure_stays(
    dtypes: Seq<TypeModel>,
    defaults: Option<Seq<Seq<char>>>,
    upto: nat,
    later: nat,
)
    requires
        fills(dtypes, defaults, upto) is Err,
        upto <= later <= dtypes.len(),
    ensures
        fills(dtypes, defaults, later) == fills(dtypes, defaults, upto),
    decreases later,
{
    if later > upto {
        lemma_fills_failure_stays(dtypes, defaults, upto, (later - 1) as nat);
    }
}

/// The splice points of the new columns: those the caller gave, or for
/// every column the end of the schema.
pub open spec fn chosen_positions(index: Option<Seq<usize>>, n_new: nat, n: usize) -> Seq<usize> {
    match index {
        Some(positions) => positions,
        None => Seq::new(n_new, |k: int| n),
    }
}

/// The first of the first `upto` splice points that lies beyond the end of
/// a schema of `n` fields.
pub open spec fn first_misplaced(positions: Seq<usize>, n: nat, upto: nat) -> Option<int>
    decreases upto,
{
    if upto == 0 || upto > positions.len() {
        None
    } else {
        match first_misplaced(positions, n, (upto - 1) as nat) {
            Some(k) => Some(k),
            None => if positions[upto - 1] > n {
                Some(upto - 1)
            } else {
                None
            },
        }
    }
}

/// A misplaced splice point found among the first is still the first one
/// when more are looked at.
pub proof fn lemma_misplaced_stays(positions: Seq<usize>, n: nat, upto: nat, later: nat)
    requires
        first_misplaced(positions, n, upto) is Some,
        upto <= later <= positions.len(),
    ensures
        first_misplaced(positions, n, later) == first_misplaced(positions, n, upto),
    decreases later,
{
    if later > upto {
        lemma_misplaced_stays(positions, n, upto, (later - 1) as nat);
    }
}

/// Where no splice point is misplaced, all of them fit.
pub proof fn lemma_none_misplaced_fit(positions: Seq<usize>, n: nat, upto: nat)
    requires
        first_misplaced(positions, n, upto) is None,
        upto <= positions.len(),
    ensures
        forall|k: int| 0 <= k < upto ==> #[trigger] positions[k] <= n,
    decreases upto,
{
    if upto > 0 {
        lemma_none_misplaced_fit(positions, n, (upto - 1) as nat);
    }
}

/// The new fields: the names with their types, pair by pair.
pub open spec fn new_fields(names: Seq<Seq<char>>, dtypes: Seq<TypeModel>) -> Seq<FieldModel> {
    Seq::new(names.len(), |k: int| FieldModel { name: names[k], dtype: dtypes[k] })
}

/// What a sequence of types stands for.
pub open spec fn type_models(dtypes: Seq<DataType>) -> Seq<TypeModel> {
    Seq::new(dtypes.len(), |k: int| dtypes[k]@)
}

/// The splice points that optional positions stand for.
pub open spec fn opt_positions(index: Option<Vec<usize>>) -> Option<Seq<usize>> {
    match index {
        Some(v) => Some(v@),
        None => None,
    }
}

/// The detail of the fault raised when names and types differ in number.
pub open spec fn names_dtypes_detail() -> Seq<char> {
    "Column names and dtypes must have the same length"@
}

/// The detail of the fault raised when defaults and names differ in number.
pub open spec fn defaults_detail() -> Seq<char> {
    "Default values must have the same length as column names and dtypes"@
}

/// The detail of the fault raised when positions and names differ in
/// number.
pub open spec fn index_detail() -> Seq<char> {
    "Index values must have the same length as column names and dtypes"@
}

/// How new columns are inserted into a file, or why they cannot be.
///
/// Refused, in this order: names and types, defaults, or positions that
/// differ in number; a batch size of zero; the first new column whose type
/// cannot be created or whose default does not write a value of its type;
/// the first new column whose position lies beyond the end of the schema,
/// an `Argument` fault about its name.
///
/// Otherwise every new column goes before the original field at its
/// position, positions counting original fields only, and with no
/// positions given all go to the end in the order declared.
pub open spec fn insert_outcome(
    input: Seq<char>,
    output: Seq<char>,
    schema: Seq<FieldModel>,
    names: Seq<Seq<char>>,
    dtypes: Seq<TypeModel>,
    defaults: Option<Seq<Seq<char>>>,
    index: Option<Seq<usize>>,
    batch_size: usize,
) -> Result<RewriteModel, Fault> {
    let positions = chosen_positions(index, names.len(), schema.len() as usize);
    if names.len() != dtypes.len() {
        Err(fault(ErrorKind::Argument, names_dtypes_detail()))
    } else if defaults is Some && defaults->0.len() != names.len() {
        Err(fault(ErrorKind::Argument, defaults_detail()))
    } else if index is Some && index->0.len() != names.len() {
        Err(fault(ErrorKind::Argument, index_detail()))
    } else if batch_size == 0 {
        Err(fault(ErrorKind::Argument, batch_size_detail()))
    } else {
        match fills(dtypes, defaults, dtypes.len()) {
            Err(f) => Err(f),
            Ok(values) => match first_misplaced(positions, schema.len(), positions.len()) {
                Some(k) => Err(fault(ErrorKind::Argument, names[k])),
                None => Ok(
                    RewriteModel {
                        input,
                        output,
                        tmp_output: tmp_target(output),
                        schema: with_columns(schema, new_fields(names, dtypes), positions),
                        layout: insert_slots(schema.len(), positions),
                        new_columns: values,
                        batch_size,
                    },
                ),
            },
        }
    }
}

/// Reads the defaults of all new columns, each according to its type.
pub(crate) fn parse_defaults(column_dtypes: &Vec<DataType>, default_values: &Option<Vec<String>>) -> (out:
    Result<Vec<ColumnValue>, TblError>)
    requires
        default_values matches Some(d) ==> d.len() == column_dtypes.len(),
    ensures
        match out {
            Ok(values) => fills(
                type_models(column_dtypes@),
                opt_texts(*default_values),
                column_dtypes.len() as nat,
            ) == Ok::<_, Fault>(value_models(values@)),
            Err(e) => fills(
                type_models(column_dtypes@),
                opt_texts(*default_values),
                column_dtypes.len() as nat,
            ) == Err::<Seq<ValueModel>, _>(e@),
        },
{
    let ghost dtypes = type_models(column_dtypes@);
    let ghost defaults = opt_texts(*default_values);
    let mut values: Vec<ColumnValue> = Vec::new();
    let ghost mut made: Seq<ValueModel> = Seq::empty();
    let mut k: usize = 0;
    while k < column_dtypes.len()
        invariant
            0 <= k <= column_dtypes.len(),
            dtypes == type_models(column_dtypes@),
            defaults == opt_texts(*default_values),
            default_values matches Some(d) ==> d.len() == column_dtypes.len(),
            fills(dtypes, defaults, k as nat) == Ok::<_, Fault>(made),
            value_models(values@) =~= made,
        decreases column_dtypes.len() - k,
    {
        let parsed = match default_values {
            Some(given) => {
                assert(texts(given@)[k as int] == given@[k as int]@);
                parse_default(&column_dtypes[k], Some(given[k].as_str()))
            },
            None => parse_default(&column_dtypes[k], None),
        };
        match parsed {
            Ok(value) => {
                proof {
                    made = made.push(value@);
                }
                values.push(value);
            },
            Err(e) => {
                proof {
                    lemma_fills_failure_stays(
                        dtypes,
                        defaults,
                        (k + 1) as nat,
                        column_dtypes.len() as nat,
                    );
                }
                return Err(e);
            },
        }
        k += 1;
    }
    assert(value_models(values@) == made);
    Ok(values)
}

/// Finds the first splice point that lies beyond the end of a schema of
/// `n` fields.
pub fn find_misplaced(positions: &Vec<usize>, n: usize) -> (found: Option<usize>)
    ensures
        match found {
            Some(k) => k < positions.len() && first_misplaced(
                positions@,
                n as nat,
                positions.len() as nat,
            ) == Some(k as int),
            None => first_misplaced(positions@, n as nat, positions.len() as nat) is None
                && positions_fit(positions@, n as nat),
        },
{
    let mut k: usize = 0;
    while k < positions.len()
        invariant
            0 <= k <= positions.len(),
            first_misplaced(positions@, n as nat, k as nat) is None,
        decreases positions.len() - k,
    {
        if positions[k] > n {
            proof {
                lemma_misplaced_stays(
                    positions@,
                    n as nat,
                    (k + 1) as nat,
                    positions.len() as nat,
                );
            }
            return Some(k);
        }
        k += 1;
    }
    proof {
        lemma_none_misplaced_fit(positions@, n as nat, positions.len() as nat);
    }
    None
}

/// The splice points that put `n_new` columns at the end of a schema of
/// `n` fields.
pub fn positions_at_end(n_new: usize, n: usize) -> (ends: Vec<usize>)
    ensures
        ends@ == Seq::new(n_new as nat, |k: int| n),
{
    let mut ends: Vec<usize> = Vec::new();
    let mut k: usize = 0;
    while k < n_new
        invariant
            0 <= k <= n_new,
            ends.len() == k,
            forall|m: int| 0 <= m < k ==> ends@[m] == n,
        decreases n_new - k,
    {
        ends.push(n);
        k += 1;
    }
    assert(ends@ =~= Seq::new(n_new as nat, |k: int| n));
    ends
}

/// Plans inserting columns into a parquet file.
///
/// `schema` is the schema found on opening `input`. The new columns are
/// given as parallel lists: names, types, optionally defaults, optionally
/// positions. Positions count the fields of the original schema, whatever
/// else is inserted; without positions the new columns go to the end.
///
/// Every argument is checked here, before anything is written; see
/// [`insert_outcome`] for the checks and their order.
pub fn insert_parquet_columns(
    input: String,
    output: String,
    schema: &Schema,
    column_names: &Vec<String>,
    column_dtypes: &Vec<DataType>,
    default_values: &Option<Vec<String>>,
    index: &Option<Vec<usize>>,
    batch_size: usize,
) -> (out: Result<RewritePlan, TblError>)
    ensures
        match out {
            Ok(plan) => insert_outcome(
                input@,
                output@,
                schema@,
                texts(column_names@),
                type_models(column_dtypes@),
                opt_texts(*default_values),
                opt_positions(*index),
                batch_size,
            ) == Ok::<_, Fault>(plan@),
            Err(e) => insert_outcome(
                input@,
                output@,
                schema@,
                texts(column_names@),
                type_models(column_dtypes@),
                opt_texts(*default_values),
                opt_positions(*index),
                batch_size,
            ) == Err::<RewriteModel, _>(e@),
        },
{
    if column_names.len() != column_dtypes.len() {
        return Err(
            TblError::ArgumentError(
                String::from_str("Column names and dtypes must have the same length"),
            ),
        );
    }
    match default_values {
        Some(given) => {
            if given.len() != column_names.len() {
                return Err(
                    TblError::ArgumentError(
                        String::from_str(
                            "Default values must have the same length as column names and dtypes",
                        ),
                    ),
                );
            }
        },
        None => {},
    }
    match index {
        Some(given) => {
            if given.len() != column_names.len() {
                return Err(
                    TblError::ArgumentError(
                        String::from_str(
                            "Index values must have the same length as column names and dtypes",
                        ),
                    ),
                );
            }
        },
        None => {},
    }
    if batch_size == 0 {
        return Err(TblError::ArgumentError(String::from_str("batch size must be at least 1")));
    }
    let new_columns = match parse_defaults(column_dtypes, default_values) {
        Ok(values) => values,
        Err(e) => {
            return Err(e);
        },
    };
    let n = schema.len();
    let ends = positions_at_end(column_names.len(), n);
    let positions: &Vec<usize> = match index {
        Some(given) => given,
        None => &ends,
    };
    assert(positions@ =~= chosen_positions(
        opt_positions(*index),
        column_names.len() as nat,
        schema@.len() as usize,
    ));
    match find_misplaced(positions, n) {
        Some(k) => {
            assert(texts(column_names@)[k as int] == column_names@[k as int]@);
            return Err(TblError::ArgumentError(column_names[k].clone()));
        },
        None => {},
    }
    let layout = insert_layout(n, positions);
    let mut added: Vec<Field> = Vec::new();
    let mut k: usize = 0;
    while k < column_names.len()
        invariant
            0 <= k <= column_names.len(),
            column_names.len() == column_dtypes.len(),
            added.len() == k,
            forall|m: int|
                0 <= m < k ==> #[trigger] added@[m]@ == new_fields(
                    texts(column_names@),
                    type_models(column_dtypes@),
                )[m],
        decreases column_names.len() - k,
    {
        added.push(Field::new(column_names[k].clone(), column_dtypes[k].clone()));
        k += 1;
    }
    assert(crate::schema::field_models(added@) =~= new_fields(
        texts(column_names@),
        type_models(column_dtypes@),
    ));
    let new_schema = lay_out_schema(&layout, schema, &added);
    let tmp_output = create_tmp_target(output.as_str());
    Ok(
        RewritePlan {
            input,
            output,
            tmp_output,
            schema: new_schema,
            layout,
            new_columns,
            batch_size,
        },
    )
}

/// The detail of the fault raised when schemas and files differ in number.
pub open spec fn schemas_detail() -> Seq<char> {
    "Number of schemas must match number of inputs"@
}

/// The detail of the fault raised when inputs and outputs differ in number.
pub open spec fn outputs_detail() -> Seq<char> {
    "Number of inputs must match number of outputs"@
}

/// The detail of the fault raised for a concurrency bound of zero.
pub open spec fn max_concurrent_detail() -> Seq<char> {
    "max concurrent must be at least 1"@
}

/// What every plan of a list stands for.
pub open spec fn plan_models(plans: Seq<RewritePlan>) -> Seq<RewriteModel> {
    Seq::new(plans.len(), |i: int| plans[i]@)
}

/// The plans that drop `columns` from the first `upto` files, or the first
/// fault met.
pub open spec fn drop_plans(
    inputs: Seq<Seq<char>>,
    outputs: Seq<Seq<char>>,
    schemas: Seq<Seq<FieldModel>>,
    columns: Seq<Seq<char>>,
    batch_size: usize,
    upto: nat,
) -> Result<Seq<RewriteModel>, Fault>
    decreases upto,
{
    if upto == 0 || upto > inputs.len() {
        Ok(Seq::empty())
    } else {
        match drop_plans(inputs, outputs, schemas, columns, batch_size, (upto - 1) as nat) {
            Err(f) => Err(f),
            Ok(before) => match drop_outcome(
                inputs[upto - 1],
                outputs[upto - 1],
                schemas[upto - 1],
                columns,
                batch_size,
            ) {
                Ok(plan) => Ok(before.push(plan)),
                Err(f) => Err(f),
            },
        }
    }
}

/// A fault met among the first files is still the fault when more files
/// are planned.
pub proof fn lemma_drop_plans_failure_stays(
    inputs: Seq<Seq<char>>,
    outputs: Seq<Seq<char>>,
    schemas: Seq<Seq<FieldModel>>,
    columns: Seq<Seq<char>>,
    batch_size: usize,
    upto: nat,
    later: nat,
)
    requires
        drop_plans(inputs, outputs, schemas, columns, batch_size, upto) is Err,
        upto <= later <= inputs.len(),
    ensures
        drop_plans(inputs, outputs, schemas, columns, batch_size, later) == drop_plans(
            inputs,
            outputs,
            schemas,
            columns,
            batch_size,
            upto,
        ),
    decreases later,
{
    if later > upto {
        lemma_drop_plans_failure_stays(
            inputs,
            outputs,
            schemas,
            columns,
            batch_size,
            upto,
            (later - 1) as nat,
        );
    }
}

/// The inputs of a list of pairs.
pub open spec fn pair_inputs(pairs: Seq<(String, String)>) -> Seq<Seq<char>> {
    Seq::new(pairs.len(), |i: int| pairs[i].0@)
}

/// The outputs of a list of pairs.
pub open spec fn pair_outputs(pairs: Seq<(String, String)>) -> Seq<Seq<char>> {
    Seq::new(pairs.len(), |i: int| pairs[i].1@)
}

/// What every schema of a list stands for.
pub open spec fn schema_models(schemas: Seq<Schema>) -> Seq<Seq<FieldModel>> {
    Seq::new(schemas.len(), |i: int| schemas[i]@)
}

/// How `columns` are dropped from many files, or why from none.
pub open spec fn drops_outcome(
    inputs: Seq<Seq<char>>,
    outputs: Seq<Seq<char>>,
    schemas: Seq<Seq<FieldModel>>,
    columns: Seq<Seq<char>>,
    batch_size: usize,
    max_concurrent: usize,
) -> Result<Seq<RewriteModel>, Fault> {
    if schemas.len() != inputs.len() {
        Err(fault(ErrorKind::Argument, schemas_detail()))
    } else if max_concurrent == 0 {
        Err(fault(ErrorKind::Argument, max_concurrent_detail()))
    } else {
        drop_plans(inputs, outputs, schemas, columns, batch_size, inputs.len())
    }
}

/// Plans dropping columns from multiple parquet files.
///
/// `schemas` holds the schema found in each input, file by file. All files
/// are planned before any is touched: when one of them cannot be
/// rewritten, because it lacks a column to drop or an argument is wrong,
/// the first fault is returned and no plan at all. The plans are meant to
/// be carried out at most `max_concurrent` at a time.
pub fn drop_parquets_columns(
    input_output_paths: &Vec<(String, String)>,
    schemas: &Vec<Schema>,
    columns_to_drop: &Vec<String>,
    batch_size: usize,
    max_concurrent: usize,
) -> (out: Result<Vec<RewritePlan>, TblError>)
    ensures
        match out {
            Ok(plans) => drops_outcome(
                pair_inputs(input_output_paths@),
                pair_outputs(input_output_paths@),
                schema_models(schemas@),
                texts(columns_to_drop@),
                batch_size,
                max_concurrent,
            ) == Ok::<_, Fault>(plan_models(plans@)) && plans.len() == input_output_paths.len(),
            Err(e) => drops_outcome(
                pair_inputs(input_output_paths@),
                pair_outputs(input_output_paths@),
                schema_models(schemas@),
                texts(columns_to_drop@),
                batch_size,
                max_concurrent,
            ) == Err::<Seq<RewriteModel>, _>(e@),
        },
{
    if schemas.len() != input_output_paths.len() {
        return Err(
            TblError::ArgumentError(
                String::from_str("Number of schemas must match number of inputs"),
            ),
        );
    }
    if max_concurrent == 0 {
        return Err(
            TblError::ArgumentError(String::from_str("max concurrent must be at least 1")),
        );
    }
    let ghost inputs = pair_inputs(input_output_paths@);
    let ghost outputs = pair_outputs(input_output_paths@);
    let ghost found = schema_models(schemas@);
    let ghost columns = texts(columns_to_drop@);
    let mut plans: Vec<RewritePlan> = Vec::new();
    let ghost mut made: Seq<RewriteModel> = Seq::empty();
    let mut i: usize = 0;
    while i < input_output_paths.len()
        invariant
            0 <= i <= input_output_paths.len(),
            schemas.len() == input_output_paths.len(),
            max_concurrent != 0,
            inputs == pair_inputs(input_output_paths@),
            outputs == pair_outputs(input_output_paths@),
            found == schema_models(schemas@),
            columns == texts(columns_to_drop@),
            drop_plans(inputs, outputs, found, columns, batch_size, i as nat) == Ok::<_, Fault>(
                made,
            ),
            plan_models(plans@) =~= made,
            plans.len() == i,
        decreases input_output_paths.len() - i,
    {
        assert(inputs[i as int] == input_output_paths@[i as int].0@);
        assert(outputs[i as int] == input_output_paths@[i as int].1@);
        assert(found[i as int] == schemas@[i as int]@);
        let planned = drop_parquet_columns(
            input_output_paths[i].0.clone(),
            input_output_paths[i].1.clone(),
            &schemas[i],
            columns_to_drop,
            batch_size,
        );
        match planned {
            Ok(plan) => {
                proof {
                    made = made.push(plan@);
                }
                plans.push(plan);
            },
            Err(e) => {
                proof {
                    lemma_drop_plans_failure_stays(
                        inputs,
                        outputs,
                        found,
                        columns,
                        batch_size,
                        (i + 1) as nat,
                        inputs.len(),
                    );
                }
                return Err(e);
            },
        }
        i += 1;
    }
    assert(plan_models(plans@) == made);
    Ok(plans)
}

/// The plans that insert the new columns into the first `upto` files, or
/// the first fault met.
pub open spec fn insert_plans(
    inputs: Seq<Seq<char>>,
    outputs: Seq<Seq<char>>,
    schemas: Seq<Seq<FieldModel>>,
    names: Seq<Seq<char>>,
    dtypes: Seq<TypeModel>,
    defaults: Option<Seq<Seq<char>>>,
    index: Option<Seq<usize>>,
    batch_size: usize,
    upto: nat,
) -> Result<Seq<RewriteModel>, Fault>
    decreases upto,
{
    if upto == 0 || upto > inputs.len() {
        Ok(Seq::empty())
    } else {
        match insert_plans(
            inputs,
            outputs,
            schemas,
            names,
            dtypes,
            defaults,
            index,
            batch_size,
            (upto - 1) as nat,
        ) {
            Err(f) => Err(f),
            Ok(before) => match insert_outcome(
                inputs[upto - 1],
                outputs[upto - 1],
                schemas[upto - 1],
                names,
                dtypes,
                defaults,
                index,
                batch_size,
            ) {
                Ok(plan) => Ok(before.push(plan)),
                Err(f) => Err(f),
            },
        }
    }
}

/// A fault met among the first files is still the fault when more files
/// are planned.
pub proof fn lemma_insert_plans_failure_stays(
    inputs: Seq<Seq<char>>,
    outputs: Seq<Seq<char>>,
    schemas: Seq<Seq<FieldModel>>,
    names: Seq<Seq<char>>,
    dtypes: Seq<TypeModel>,
    defaults: Option<Seq<Seq<char>>>,
    index: Option<Seq<usize>>,
    batch_size: usize,
    upto: nat,
    later: nat,
)
    requires
        insert_plans(inputs, outputs, schemas, names, dtypes, defaults, index, batch_size, upto)
            is Err,
        upto <= later <= inputs.len(),
    ensures
        insert_plans(inputs, outputs, schemas, names, dtypes, defaults, index, batch_size, later)
            == insert_plans(
            inputs,
            outputs,
            schemas,
            names,
            dtypes,
            defaults,
            index,
            batch_size,
            upto,
        ),
    decreases later,
{
    if later > upto {
        lemma_insert_plans_failure_stays(
            inputs,
            outputs,
            schemas,
            names,
            dtypes,
            defaults,
            index,
            batch_size,
            upto,
            (later - 1) as nat,
        );
    }
}

/// How new columns are inserted into many files, or why into none.
pub open spec fn inserts_outcome(
    inputs: Seq<Seq<char>>,
    outputs: Seq<Seq<char>>,
    schemas: Seq<Seq<FieldModel>>,
    names: Seq<Seq<char>>,
    dtypes: Seq<TypeModel>,
    defaults: Option<Seq<Seq<char>>>,
    index: Option<Seq<usize>>,
    batch_size: usize,
    max_concurrent: usize,
) -> Result<Seq<RewriteModel>, Fault> {
    if inputs.len() != outputs.len() {
        Err(fault(ErrorKind::Argument, outputs_detail()))
    } else if schemas.len() != inputs.len() {
        Err(fault(ErrorKind::Argument, schemas_detail()))
    } else if max_concurrent == 0 {
        Err(fault(ErrorKind::Argument, max_concurrent_detail()))
    } else {
        insert_plans(
            inputs,
            outputs,
            schemas,
            names,
            dtypes,
            defaults,
            index,
            batch_size,
            inputs.len(),
        )
    }
}

/// Plans inserting columns into multiple parquet files.
///
/// `schemas` holds the schema found in each input, file by file. All files
/// are planned before any is touched: the first fault is returned and no
/// plan at all. The plans are meant to be carried out at most
/// `max_concurrent` at a time.
pub fn insert_parquets_columns(
    inputs: &Vec<String>,
    outputs: &Vec<String>,
    schemas: &Vec<Schema>,
    column_names: &Vec<String>,
    column_dtypes: &Vec<DataType>,
    default_values: &Option<Vec<String>>,
    index: &Option<Vec<usize>>,
    batch_size: usize,
    max_concurrent: usize,
) -> (out: Result<Vec<RewritePlan>, TblError>)
    ensures
        match out {
            Ok(plans) => inserts_outcome(
                texts(inputs@),
                texts(outputs@),
                schema_models(schemas@),
                texts(column_names@),
                type_models(column_dtypes@),
                opt_texts(*default_values),
                opt_positions(*index),
                batch_size,
                max_concurrent,
            ) == Ok::<_, Fault>(plan_models(plans@)) && plans.len() == inputs.len(),
            Err(e) => inserts_outcome(
                texts(inputs@),
                texts(outputs@),
                schema_models(schemas@),
                texts(column_names@),
                type_models(column_dtypes@),
                opt_texts(*default_values),
                opt_positions(*index),
                batch_size,
                max_concurrent,
            ) == Err::<Seq<RewriteModel>, _>(e@),
        },
{
    if inputs.len() != outputs.len() {
        return Err(
            TblError::ArgumentError(
                String::from_str("Number of inputs must match number of outputs"),
            ),
        );
    }
    if schemas.len() != inputs.len() {
        return Err(
            TblError::ArgumentError(
                String::from_str("Number of schemas must match number of inputs"),
            ),
        );
    }
    if max_concurrent == 0 {
        return Err(
            TblError::ArgumentError(String::from_str("max concurrent must be at least 1")),
        );
    }
    let ghost ins = texts(inputs@);
    let ghost outs = texts(outputs@);
    let ghost found = schema_models(schemas@);
    let ghost names = texts(column_names@);
    let ghost dtypes = type_models(column_dtypes@);
    let ghost defaults = opt_texts(*default_values);
    let ghost places = opt_positions(*index);
    let mut plans: Vec<RewritePlan> = Vec::new();
    let ghost mut made: Seq<RewriteModel> = Seq::empty();
    let mut i: usize = 0;
    while i < inputs.len()
        invariant
            0 <= i <= inputs.len(),
            inputs.len() == outputs.len(),
            schemas.len() == inputs.len(),
            max_concurrent != 0,
            ins == texts(inputs@),
            outs == texts(outputs@),
            found == schema_models(schemas@),
            names == texts(column_names@),
            dtypes == type_models(column_dtypes@),
            defaults == opt_texts(*default_values),
            places == opt_positions(*index),
            insert_plans(ins, outs, found, names, dtypes, defaults, places, batch_size, i as nat)
                == Ok::<_, Fault>(made),
            plan_models(plans@) =~= made,
            plans.len() == i,
        decreases inputs.len() - i,
    {
        assert(ins[i as int] == inputs@[i as int]@);
        assert(outs[i as int] == outputs@[i as int]@);
        assert(found[i as int] == schemas@[i as int]@);
        let planned = insert_parquet_columns(
            inputs[i].clone(),
            outputs[i].clone(),
            &schemas[i],
            column_names,
            column_dtypes,
            default_values,
            index,
            batch_size,
        );
        match planned {
            Ok(plan) => {
                proof {
                    made = made.push(plan@);
                }
                plans.push(plan);
            },
            Err(e) => {
                proof {
                    lemma_insert_plans_failure_stays(
                        ins,
                        outs,
                        found,
                        names,
                        dtypes,
                        defaults,
                        places,
                        batch_size,
                        (i + 1) as nat,
                        ins.len(),
                    );
                }
                return Err(e);
            },
        }
        i += 1;
    }
    assert(plan_models(plans@) == made);
    Ok(plans)
}

/// Dropping a column that the schema does not hold is refused while
/// planning, whatever else is asked: it is never a silent no-op.
pub proof fn lemma_unknown_column_is_refused(
    input: Seq<char>,
    output: Seq<char>,
    schema: Seq<FieldModel>,
    columns: Seq<Seq<char>>,
    batch_size: usize,
    c: int,
)
    requires
        0 <= c < columns.len(),
        !crate::schema::has_column(schema, columns[c]),
    ensures
        drop_outcome(input, output, schema, columns, batch_size) is Err,
        batch_size > 0 ==> drop_outcome(input, output, schema, columns, batch_size)->Err_0.kind
            == ErrorKind::Schema,
{
    crate::edits::lemma_missing_found(schema, columns, c, columns.len());
}

/// A batch of files is planned only when every file of it can be
/// rewritten: one file that lacks a column to drop leaves the whole batch
/// without a plan, the files before it included.
pub proof fn lemma_unknown_column_refuses_batch(
    inputs: Seq<Seq<char>>,
    outputs: Seq<Seq<char>>,
    schemas: Seq<Seq<FieldModel>>,
    columns: Seq<Seq<char>>,
    batch_size: usize,
    max_concurrent: usize,
    file: int,
    c: int,
)
    requires
        0 <= file < inputs.len(),
        0 <= c < columns.len(),
        !crate::schema::has_column(schemas[file], columns[c]),
    ensures
        drops_outcome(inputs, outputs, schemas, columns, batch_size, max_concurrent) is Err,
{
    if schemas.len() == inputs.len() && max_concurrent != 0 {
        lemma_unknown_column_is_refused(
            inputs[file],
            outputs[file],
            schemas[file],
            columns,
            batch_size,
            c,
        );
        lemma_failing_file_refuses_batch(
            inputs,
            outputs,
            schemas,
            columns,
            batch_size,
            file,
            inputs.len(),
        );
    }
}

/// A file that cannot be planned leaves every batch that holds it without
/// a plan.
pub proof fn lemma_failing_file_refuses_batch(
    inputs: Seq<Seq<char>>,
    outputs: Seq<Seq<char>>,
    schemas: Seq<Seq<FieldModel>>,
    columns: Seq<Seq<char>>,
    batch_size: usize,
    file: int,
    upto: nat,
)
    requires
        0 <= file < upto <= inputs.len(),
        drop_outcome(inputs[file], outputs[file], schemas[file], columns, batch_size) is Err,
    ensures
        drop_plans(inputs, outputs, schemas, columns, batch_size, upto) is Err,
    decreases upto,
{
    if file < upto - 1 {
        lemma_failing_file_refuses_batch(
            inputs,
            outputs,
            schemas,
            columns,
            batch_size,
            file,
            (upto - 1) as nat,
        );
    }
}

} // verus!
