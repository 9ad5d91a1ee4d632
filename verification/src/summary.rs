//! Summaries of files: sizes and counts, alone and combined.

use crate::error::{fault, ErrorKind, Fault, TblError};
use crate::gather::{EntryKind, FsEntry};
use crate::merge::TabularFile;
use crate::schema::{FieldModel, Schema};
use vstd::prelude::*;

verus! {

/// The sizes of one column.
#[derive(Debug, Clone, Copy, PartialEq, Eq, Structural)]
pub struct TabularColumnSummary {
    pub n_bytes_compressed: u64,
    pub n_bytes_uncompressed: u64,
}

/// The sizes and counts of one file, or of several files together.
#[derive(Debug, PartialEq, Eq)]
pub struct TabularSummary {
    pub n_files: u64,
    pub n_bytes_compressed: u64,
    pub n_bytes_uncompressed: u64,
    pub n_rows: u64,
    pub schema: Schema,
    pub columns: Vec<TabularColumnSummary>,
}

/// What a [`TabularSummary`] stands for.
pub ghost struct SummaryModel {
    pub n_files: nat,
    pub n_bytes_compressed: nat,
    pub n_bytes_uncompressed: nat,
    pub n_rows: nat,
    pub schema: Seq<FieldModel>,
    pub columns: Seq<TabularColumnSummary>,
}

impl View for TabularSummary {
    type V = SummaryModel;

    open spec fn view(&self) -> SummaryModel {
        SummaryModel {
            n_files: self.n_files as nat,
            n_bytes_compressed: self.n_bytes_compressed as nat,
            n_bytes_uncompressed: self.n_bytes_uncompressed as nat,
            n_rows: self.n_rows as nat,
            schema: self.schema@,
            columns: self.columns@,
        }
    }
}

impl Clone for TabularSummary {
    fn clone(&self) -> (copy: TabularSummary)
        ensures
            copy@ == self@,
    {
        let mut columns: Vec<TabularColumnSummary> = Vec::new();
        let mut i: usize = 0;
        while i < self.columns.len()
            invariant
                0 <= i <= self.columns.len(),
                columns@ =~= self.columns@.subrange(0, i as int),
            decreases self.columns.len() - i,
        {
            columns.push(self.columns[i]);
            i += 1;
        }
        assert(columns@ =~= self.columns@);
        TabularSummary {
            n_files: self.n_files,
            n_bytes_compressed: self.n_bytes_compressed,
            n_bytes_uncompressed: self.n_bytes_uncompressed,
            n_rows: self.n_rows,
            schema: self.schema.clone(),
            columns,
        }
    }
}

/// The summary of no file at all.
pub open spec fn empty_summary() -> SummaryModel {
    SummaryModel {
        n_files: 0,
        n_bytes_compressed: 0,
        n_bytes_uncompressed: 0,
        n_rows: 0,
        schema: Seq::empty(),
        columns: Seq::empty(),
    }
}

/// Two lists of column sizes added column by column. An empty list adds
/// nothing; lists of different lengths cannot be added.
pub open spec fn columns_sum(
    lhs: Seq<TabularColumnSummary>,
    rhs: Seq<TabularColumnSummary>,
) -> Option<Seq<(nat, nat)>> {
    if lhs.len() == 0 {
        Some(column_sizes(rhs))
    } else if rhs.len() == 0 {
        Some(column_sizes(lhs))
    } else if lhs.len() != rhs.len() {
        None
    } else {
        Some(
            Seq::new(
                lhs.len(),
                |i: int|
                    (
                        (lhs[i].n_bytes_compressed + rhs[i].n_bytes_compressed) as nat,
                        (lhs[i].n_bytes_uncompressed + rhs[i].n_bytes_uncompressed) as nat,
                    ),
            ),
        )
    }
}

/// The sizes of a list of columns as numbers.
pub open spec fn column_sizes(columns: Seq<TabularColumnSummary>) -> Seq<(nat, nat)> {
    Seq::new(
        columns.len(),
        |i: int| (columns[i].n_bytes_compressed as nat, columns[i].n_bytes_uncompressed as nat),
    )
}

/// The detail of the fault raised when summaries differ in their number of
/// columns.
pub open spec fn columns_detail() -> Seq<char> {
    "different number of columns"@
}

/// The detail of the fault raised when a total is too large to be held.
pub open spec fn overflow_detail() -> Seq<char> {
    "total is too large"@
}

/// Adds the sizes of two lists of columns, column by column.
///
/// Lists of different lengths are a `SchemaError`; a sum too large to be
/// held is an `ArgumentError`.
pub fn combine_tabular_columns_summaries(
    lhs: &Vec<TabularColumnSummary>,
    rhs: &Vec<TabularColumnSummary>,
) -> (out: Result<Vec<TabularColumnSummary>, TblError>)
    ensures
        match out {
            Ok(sum) => columns_sum(lhs@, rhs@) == Some(column_sizes(sum@)),
            Err(e) => match columns_sum(lhs@, rhs@) {
                None => e@ == fault(ErrorKind::Schema, columns_detail()),
                Some(sizes) => e@ == fault(ErrorKind::Argument, overflow_detail())
                    && some_too_large(sizes),
            },
        },
{
    let source = if lhs.len() == 0 {
        rhs
    } else if rhs.len() == 0 {
        lhs
    } else if lhs.len() != rhs.len() {
        return Err(TblError::SchemaError(String::from_str("different number of columns")));
    } else {
        let mut sum: Vec<TabularColumnSummary> = Vec::new();
        let mut i: usize = 0;
        while i < lhs.len()
            invariant
                0 <= i <= lhs.len(),
                lhs.len() == rhs.len(),
                lhs.len() > 0,
                sum.len() == i,
                forall|k: int|
                    0 <= k < i ==> (#[trigger] sum@[k]).n_bytes_compressed
                        == lhs@[k].n_bytes_compressed + rhs@[k].n_bytes_compressed
                        && sum@[k].n_bytes_uncompressed == lhs@[k].n_bytes_uncompressed
                        + rhs@[k].n_bytes_uncompressed,
            decreases lhs.len() - i,
        {
            let compressed = lhs[i].n_bytes_compressed.checked_add(rhs[i].n_bytes_compressed);
            let uncompressed = lhs[i].n_bytes_uncompressed.checked_add(
                rhs[i].n_bytes_uncompressed,
            );
            match (compressed, uncompressed) {
                (Some(c), Some(u)) => {
                    sum.push(TabularColumnSummary { n_bytes_compressed: c, n_bytes_uncompressed: u });
                },
                _ => {
                    let ghost sizes = columns_sum(lhs@, rhs@)->0;
                    assert(sizes[i as int].0 > u64::MAX || sizes[i as int].1 > u64::MAX);
                    return Err(TblError::ArgumentError(String::from_str("total is too large")));
                },
            }
            i += 1;
        }
        assert(columns_sum(lhs@, rhs@)->0 =~= column_sizes(sum@));
        return Ok(sum);
    };
    let mut copy: Vec<TabularColumnSummary> = Vec::new();
    let mut i: usize = 0;
    while i < source.len()
        invariant
            0 <= i <= source.len(),
            copy@ =~= source@.subrange(0, i as int),
        decreases source.len() - i,
    {
        copy.push(source[i]);
        i += 1;
    }
    assert(copy@ =~= source@);
    Ok(copy)
}

/// Whether some column of a sum is too large to be held.
pub open spec fn some_too_large(sizes: Seq<(nat, nat)>) -> bool {
    exists|i: int| 0 <= i < sizes.len() && (#[trigger] sizes[i].0 > u64::MAX || sizes[i].1 > u64::MAX)
}

/// The columns that hold the given sizes.
pub open spec fn columns_of(sizes: Seq<(nat, nat)>) -> Seq<TabularColumnSummary> {
    Seq::new(
        sizes.len(),
        |i: int|
            TabularColumnSummary {
                n_bytes_compressed: sizes[i].0 as u64,
                n_bytes_uncompressed: sizes[i].1 as u64,
            },
    )
}

/// A running total with one more summary added to it.
///
/// Files, bytes and rows are added up; a total too large to be held is an
/// `Argument` fault. With `include_columns` the column sizes are added up
/// too: summaries with different numbers of columns are a `Schema` fault,
/// a column total too large to be held an `Argument` fault.
pub open spec fn with_summary(total: SummaryModel, s: SummaryModel, include_columns: bool) -> Result<
    SummaryModel,
    Fault,
> {
    if total.n_files + s.n_files > u64::MAX || total.n_bytes_compressed + s.n_bytes_compressed
        > u64::MAX || total.n_bytes_uncompressed + s.n_bytes_uncompressed > u64::MAX
        || total.n_rows + s.n_rows > u64::MAX {
        Err(fault(ErrorKind::Argument, overflow_detail()))
    } else {
        let sums = SummaryModel {
            n_files: total.n_files + s.n_files,
            n_bytes_compressed: total.n_bytes_compressed + s.n_bytes_compressed,
            n_bytes_uncompressed: total.n_bytes_uncompressed + s.n_bytes_uncompressed,
            n_rows: total.n_rows + s.n_rows,
            ..total
        };
        if !include_columns {
            Ok(sums)
        } else {
            match columns_sum(total.columns, s.columns) {
                None => Err(fault(ErrorKind::Schema, columns_detail())),
                Some(sizes) => if some_too_large(sizes) {
                    Err(fault(ErrorKind::Argument, overflow_detail()))
                } else {
                    Ok(SummaryModel { columns: columns_of(sizes), ..sums })
                },
            }
        }
    }
}

/// The first `upto` summaries combined, or the first fault met. The schema
/// is that of the first summary.
pub open spec fn combined(summaries: Seq<SummaryModel>, include_columns: bool, upto: nat) -> Result<
    SummaryModel,
    Fault,
>
    decreases upto,
{
    if upto == 0 || upto > summaries.len() {
        Ok(empty_summary())
    } else {
        match combined(summaries, include_columns, (upto - 1) as nat) {
            Err(f) => Err(f),
            Ok(total) => with_summary(
                if upto == 1 {
                    SummaryModel { schema: summaries[0].schema, ..total }
                } else {
                    total
                },
                summaries[upto - 1],
                include_columns,
            ),
        }
    }
}

/// A fault met among the first summaries is still the fault when more are
/// combined.
pub proof fn lemma_combined_failure_stays(
    summaries: Seq<SummaryModel>,
    include_columns: bool,
    upto: nat,
    later: nat,
)
    requires
        combined(summaries, include_columns, upto) is Err,
        upto <= later <= summaries.len(),
    ensures
        combined(summaries, include_columns, later) == combined(summaries, include_columns, upto),
    decreases later,
{
    if later > upto {
        lemma_combined_failure_stays(summaries, include_columns, upto, (later - 1) as nat);
    }
}

/// What every summary of a list of references stands for.
pub open spec fn ref_models(summaries: Seq<&TabularSummary>) -> Seq<SummaryModel> {
    Seq::new(summaries.len(), |i: int| summaries[i]@)
}

/// Combines tabular summaries into one: the number of files, the bytes and
/// the rows are added up, and the schema is that of the first summary.
///
/// With `include_columns` the sizes of the columns are added up too,
/// column by column, which asks the summaries to agree in their number of
/// columns; without it the result lists no columns. See [`with_summary`]
/// for the faults.
pub fn combine_tabular_summaries(summaries: &Vec<&TabularSummary>, include_columns: bool) -> (out:
    Result<TabularSummary, TblError>)
    ensures
        match out {
            Ok(total) => combined(
                ref_models(summaries@),
                include_columns,
                summaries.len() as nat,
            ) == Ok::<_, Fault>(total@),
            Err(e) => combined(ref_models(summaries@), include_columns, summaries.len() as nat)
                == Err::<SummaryModel, _>(e@),
        },
{
    let ghost all = ref_models(summaries@);
    let mut total = TabularSummary {
        n_files: 0,
        n_bytes_compressed: 0,
        n_bytes_uncompressed: 0,
        n_rows: 0,
        schema: Schema::new(Vec::new()),
        columns: Vec::new(),
    };
    assert(total@.schema =~= Seq::<FieldModel>::empty());
    assert(total@ == empty_summary());
    let mut s: usize = 0;
    while s < summaries.len()
        invariant
            0 <= s <= summaries.len(),
            all == ref_models(summaries@),
            combined(all, include_columns, s as nat) == Ok::<_, Fault>(total@),
        decreases summaries.len() - s,
    {
        let summary = summaries[s];
        assert(all[s as int] == summary@);
        if s == 0 {
            total.schema = summary.schema.clone();
        }
        let ghost start = total@;
        let files = total.n_files.checked_add(summary.n_files);
        let compressed = total.n_bytes_compressed.checked_add(summary.n_bytes_compressed);
        let uncompressed = total.n_bytes_uncompressed.checked_add(summary.n_bytes_uncompressed);
        let rows = total.n_rows.checked_add(summary.n_rows);
        match (files, compressed, uncompressed, rows) {
            (Some(f), Some(c), Some(u), Some(r)) => {
                total.n_files = f;
                total.n_bytes_compressed = c;
                total.n_bytes_uncompressed = u;
                total.n_rows = r;
            },
            _ => {
                proof {
                    lemma_combined_failure_stays(
                        all,
                        include_columns,
                        (s + 1) as nat,
                        summaries.len() as nat,
                    );
                }
                return Err(TblError::ArgumentError(String::from_str("total is too large")));
            },
        }
        if include_columns {
            match combine_tabular_columns_summaries(&total.columns, &summary.columns) {
                Ok(sum) => {
                    proof {
                        let sizes = columns_sum(start.columns, summary@.columns)->0;
                        assert(!some_too_large(sizes)) by {
                            assert forall|i: int| 0 <= i < sizes.len() implies !(#[trigger] sizes[i].0
                                > u64::MAX || sizes[i].1 > u64::MAX) by {
                                assert(sizes[i] == column_sizes(sum@)[i]);
                            }
                        }
                        assert(columns_of(sizes) =~= sum@);
                    }
                    total.columns = sum;
                },
                Err(e) => {
                    proof {
                        lemma_combined_failure_stays(
                            all,
                            include_columns,
                            (s + 1) as nat,
                            summaries.len() as nat,
                        );
                    }
                    return Err(e);
                },
            }
        }
        s += 1;
    }
    Ok(total)
}

/// The bytes of the first `upto` files, added up.
pub open spec fn total_bytes(files: Seq<TabularFile>, upto: nat) -> nat
    decreases upto,
{
    if upto == 0 || upto > files.len() {
        0
    } else {
        total_bytes(files, (upto - 1) as nat) + files[upto - 1].n_bytes as nat
    }
}

/// The bytes of ever more files never add up to less.
pub proof fn lemma_total_bytes_grows(files: Seq<TabularFile>, upto: nat, later: nat)
    requires
        upto <= later <= files.len(),
    ensures
        total_bytes(files, upto) <= total_bytes(files, later),
    decreases later,
{
    if later > upto {
        lemma_total_bytes_grows(files, upto, (later - 1) as nat);
    }
}

/// Gets the total number of bytes across files; `None` when the total is
/// too large to be held.
pub fn get_total_bytes_of_files(files: &Vec<TabularFile>) -> (total: Option<u64>)
    ensures
        match total {
            Some(t) => t == total_bytes(files@, files.len() as nat),
            None => total_bytes(files@, files.len() as nat) > u64::MAX,
        },
{
    let mut total: u64 = 0;
    let mut i: usize = 0;
    while i < files.len()
        invariant
            0 <= i <= files.len(),
            total == total_bytes(files@, i as nat),
        decreases files.len() - i,
    {
        match total.checked_add(files[i].n_bytes) {
            Some(t) => {
                total = t;
            },
            None => {
                proof {
                    lemma_total_bytes_grows(files@, (i + 1) as nat, files.len() as nat);
                }
                return None;
            },
        }
        i += 1;
    }
    Some(total)
}

/// The number of regular files among the first `upto` entries.
pub open spec fn files_among(entries: Seq<FsEntry>, upto: nat) -> nat
    decreases upto,
{
    if upto == 0 || upto > entries.len() {
        0
    } else {
        files_among(entries, (upto - 1) as nat) + if entries[upto - 1].kind == EntryKind::File {
            1nat
        } else {
            0nat
        }
    }
}

/// Counts the entries that are existing regular files.
pub fn count_existing_files(entries: &Vec<FsEntry>) -> (count: usize)
    ensures
        count == files_among(entries@, entries.len() as nat),
{
    let mut count: usize = 0;
    let mut i: usize = 0;
    while i < entries.len()
        invariant
            0 <= i <= entries.len(),
            count == files_among(entries@, i as nat),
            count <= i,
        decreases entries.len() - i,
    {
        match entries[i].kind {
            EntryKind::File => {
                count += 1;
            },
            _ => {},
        }
        i += 1;
    }
    count
}

/// Whether the summary at position `i` is the first with its schema.
pub open spec fn leads_group(all: Seq<SummaryModel>, i: int) -> bool {
    forall|j: int| 0 <= j < i ==> (#[trigger] all[j]).schema != all[i].schema
}

/// The summaries among the first `upto` that share the schema `schema`,
/// in the order of the list.
pub open spec fn members(all: Seq<SummaryModel>, schema: Seq<FieldModel>, upto: nat) -> Seq<
    SummaryModel,
>
    decreases upto,
{
    if upto == 0 || upto > all.len() {
        Seq::empty()
    } else {
        let before = members(all, schema, (upto - 1) as nat);
        if all[upto - 1].schema == schema {
            before.push(all[upto - 1])
        } else {
            before
        }
    }
}

/// One combined summary for every schema that occurs among the summaries,
/// or the first fault met: the groups in the order in which their schemas
/// first occur, looking at the first `upto` summaries for group leaders.
pub open spec fn by_schema(all: Seq<SummaryModel>, upto: nat) -> Result<Seq<SummaryModel>, Fault>
    decreases upto,
{
    if upto == 0 || upto > all.len() {
        Ok(Seq::empty())
    } else {
        match by_schema(all, (upto - 1) as nat) {
            Err(f) => Err(f),
            Ok(before) => if leads_group(all, upto - 1) {
                let group = members(all, all[upto - 1].schema, all.len());
                match combined(group, true, group.len()) {
                    Ok(total) => Ok(before.push(total)),
                    Err(f) => Err(f),
                }
            } else {
                Ok(before)
            },
        }
    }
}

/// A fault met among the first groups is still the fault when more groups
/// are combined.
pub proof fn lemma_by_schema_failure_stays(all: Seq<SummaryModel>, upto: nat, later: nat)
    requires
        by_schema(all, upto) is Err,
        upto <= later <= all.len(),
    ensures
        by_schema(all, later) == by_schema(all, upto),
    decreases later,
{
    if later > upto {
        lemma_by_schema_failure_stays(all, upto, (later - 1) as nat);
    }
}

/// What every summary of a list stands for.
pub open spec fn summary_models(summaries: Seq<TabularSummary>) -> Seq<SummaryModel> {
    Seq::new(summaries.len(), |i: int| summaries[i]@)
}

/// Summarizes by schema: one combined summary, columns included, for every
/// schema that occurs, in the order in which the schemas first occur.
pub fn summarize_by_schema(summaries: &Vec<&TabularSummary>) -> (out: Result<
    Vec<TabularSummary>,
    TblError,
>)
    ensures
        match out {
            Ok(groups) => by_schema(ref_models(summaries@), summaries.len() as nat) == Ok::<
                _,
                Fault,
            >(summary_models(groups@)),
            Err(e) => by_schema(ref_models(summaries@), summaries.len() as nat) == Err::<
                Seq<SummaryModel>,
                _,
            >(e@),
        },
{
    let ghost all = ref_models(summaries@);
    let mut groups: Vec<TabularSummary> = Vec::new();
    let ghost mut made: Seq<SummaryModel> = Seq::empty();
    let mut i: usize = 0;
    while i < summaries.len()
        invariant
            0 <= i <= summaries.len(),
            all == ref_models(summaries@),
            by_schema(all, i as nat) == Ok::<_, Fault>(made),
            summary_models(groups@) =~= made,
        decreases summaries.len() - i,
    {
        assert(all[i as int] == summaries@[i as int]@);
        let mut leads = true;
        let mut j: usize = 0;
        while j < i && leads
            invariant
                0 <= j <= i < summaries.len(),
                all == ref_models(summaries@),
                leads ==> forall|k: int| 0 <= k < j ==> (#[trigger] all[k]).schema != all[i as int].schema,
                !leads ==> !leads_group(all, i as int),
            decreases i - j, (if leads { 1int } else { 0int }),
        {
            assert(all[j as int] == summaries@[j as int]@);
            if summaries[j].schema.same_as(&summaries[i].schema) {
                leads = false;
            } else {
                j += 1;
            }
        }
        if leads {
            let mut group: Vec<&TabularSummary> = Vec::new();
            let mut k: usize = 0;
            while k < summaries.len()
                invariant
                    0 <= k <= summaries.len(),
                    i < summaries.len(),
                    all == ref_models(summaries@),
                    ref_models(group@) =~= members(all, all[i as int].schema, k as nat),
                decreases summaries.len() - k,
            {
                assert(all[k as int] == summaries@[k as int]@);
                if summaries[k].schema.same_as(&summaries[i].schema) {
                    group.push(summaries[k]);
                }
                k += 1;
            }
            assert(ref_models(group@) == members(all, all[i as int].schema, all.len()));
            match combine_tabular_summaries(&group, true) {
                Ok(total) => {
                    proof {
                        made = made.push(total@);
                    }
                    groups.push(total);
                },
                Err(e) => {
                    proof {
                        lemma_by_schema_failure_stays(
                            all,
                            (i + 1) as nat,
                            summaries.len() as nat,
                        );
                    }
                    return Err(e);
                },
            }
        }
        i += 1;
    }
    assert(summary_models(groups@) == made);
    Ok(groups)
}

/// What schemas are ranked by.
#[derive(Debug, Clone, Copy, PartialEq, Eq, Structural)]
pub enum SortSchemasBy {
    Files,
    Bytes,
    Rows,
}

/// The number a summary is ranked by.
pub open spec fn rank_key(summary: SummaryModel, sort_by: SortSchemasBy) -> nat {
    match sort_by {
        SortSchemasBy::Files => summary.n_files,
        SortSchemasBy::Bytes => summary.n_bytes_compressed,
        SortSchemasBy::Rows => summary.n_rows,
    }
}

/// Whether `order` ranks `keys` from the greatest down, equal keys staying
/// in their original order.
pub open spec fn is_ranking(order: Seq<usize>, keys: Seq<nat>) -> bool {
    &&& crate::order::is_arrangement(order, keys.len())
    &&& forall|i: int, j: int|
        0 <= i < j < order.len() ==> keys[#[trigger] order[i] as int] >= keys[#[trigger] order[j] as int]
    &&& forall|i: int, j: int|
        0 <= i < j < order.len() && keys[#[trigger] order[i] as int] == keys[#[trigger] order[j] as int]
            ==> order[i] < order[j]
}

/// The numbers that the summaries are ranked by.
pub open spec fn rank_keys(summaries: Seq<SummaryModel>, sort_by: SortSchemasBy) -> Seq<nat> {
    Seq::new(summaries.len(), |i: int| rank_key(summaries[i], sort_by))
}

/// The number a summary is ranked by.
pub fn key_of(summary: &TabularSummary, sort_by: SortSchemasBy) -> (key: u64)
    ensures
        key == rank_key(summary@, sort_by),
{
    match sort_by {
        SortSchemasBy::Files => summary.n_files,
        SortSchemasBy::Bytes => summary.n_bytes_compressed,
        SortSchemasBy::Rows => summary.n_rows,
    }
}

/// Ranks summaries from the greatest key down, stably.
pub fn rank_summaries(summaries: &Vec<TabularSummary>, sort_by: SortSchemasBy) -> (order: Vec<usize>)
    ensures
        is_ranking(order@, rank_keys(summary_models(summaries@), sort_by)),
{
    let ghost keys = rank_keys(summary_models(summaries@), sort_by);
    let mut order: Vec<usize> = Vec::new();
    let mut t: usize = 0;
    while t < summaries.len()
        invariant
            0 <= t <= summaries.len(),
            keys == rank_keys(summary_models(summaries@), sort_by),
            order.len() == t,
            forall|i: int| 0 <= i < order.len() ==> #[trigger] order@[i] < t,
            forall|i: int, j: int| 0 <= i < j < order.len() ==> order@[i] != order@[j],
            forall|i: int, j: int|
                0 <= i < j < order.len() ==> keys[#[trigger] order@[i] as int] >= keys[#[trigger] order@[j] as int],
            forall|i: int, j: int|
                0 <= i < j < order.len() && keys[#[trigger] order@[i] as int] == keys[#[trigger] order@[j] as int]
                    ==> order@[i] < order@[j],
        decreases summaries.len() - t,
    {
        let key = key_of(&summaries[t], sort_by);
        assert(keys[t as int] == key);
        let mut pos: usize = order.len();
        while pos > 0 && key_of(&summaries[order[pos - 1]], sort_by) < key
            invariant
                0 <= pos <= order.len(),
                order.len() == t,
                t < summaries.len(),
                keys == rank_keys(summary_models(summaries@), sort_by),
                keys[t as int] == key,
                forall|i: int| 0 <= i < order.len() ==> #[trigger] order@[i] < t,
                forall|j: int| pos <= j < order.len() ==> keys[#[trigger] order@[j] as int] < key,
            decreases pos,
        {
            pos -= 1;
        }
        let ghost before = order@;
        order.insert(pos, t);
        proof {
            let after = order@;
            assert(after == before.insert(pos as int, t));
            assert forall|i: int| 0 <= i < after.len() implies #[trigger] after[i] < t + 1 by {
                if i < pos {
                    assert(after[i] == before[i]);
                } else if i > pos {
                    assert(after[i] == before[i - 1]);
                }
            }
            assert forall|i: int, j: int| 0 <= i < j < after.len() implies after[i] != after[j] by {
                let bi = if i < pos { i } else { i - 1 };
                let bj = if j < pos { j } else { j - 1 };
                if i != pos && j != pos {
                    assert(after[i] == before[bi] && after[j] == before[bj]);
                } else if i == pos {
                    assert(after[j] == before[bj] && before[bj] < t);
                } else {
                    assert(after[i] == before[bi] && before[bi] < t);
                }
            }
            assert forall|i: int, j: int| 0 <= i < j < after.len() implies keys[#[trigger] after[i] as int]
                >= keys[#[trigger] after[j] as int] by {
                let bi = if i < pos { i } else { i - 1 };
                let bj = if j < pos { j } else { j - 1 };
                if i != pos && j != pos {
                    assert(after[i] == before[bi] && after[j] == before[bj]);
                } else if i == pos {
                    assert(after[j] == before[bj]);
                } else {
                    assert(after[i] == before[bi]);
                    if i < pos - 1 {
                        assert(keys[before[i] as int] >= keys[before[pos - 1] as int]);
                    }
                }
            }
            assert forall|i: int, j: int|
                0 <= i < j < after.len() && keys[#[trigger] after[i] as int] == keys[#[trigger] after[j] as int]
                implies after[i] < after[j] by {
                let bi = if i < pos { i } else { i - 1 };
                let bj = if j < pos { j } else { j - 1 };
                if i != pos && j != pos {
                    assert(after[i] == before[bi] && after[j] == before[bj]);
                } else if i == pos {
                    assert(after[j] == before[bj]);
                } else {
                    assert(after[i] == before[bi] && before[bi] < t);
                }
            }
        }
        t += 1;
    }
    order
}

/// Whether `top` holds the first `n` of `summaries` as `order` ranks them.
pub open spec fn is_top_of(
    top: Seq<SummaryModel>,
    summaries: Seq<SummaryModel>,
    order: Seq<usize>,
    n: nat,
) -> bool {
    &&& top.len() == if n < order.len() {
        n
    } else {
        order.len()
    }
    &&& forall|i: int| 0 <= i < top.len() ==> #[trigger] top[i] == summaries[order[i] as int]
}

/// Picks the `n_to_show` summaries that rank highest by files, bytes or
/// rows, the greatest first; summaries that rank alike stay in the order
/// given.
pub fn top_n_schemas(
    schema_summaries: &Vec<TabularSummary>,
    n_to_show: usize,
    sort_by: SortSchemasBy,
) -> (top: Vec<TabularSummary>)
    ensures
        exists|order: Seq<usize>| #[trigger]
            is_ranking(order, rank_keys(summary_models(schema_summaries@), sort_by)) && is_top_of(
                summary_models(top@),
                summary_models(schema_summaries@),
                order,
                n_to_show as nat,
            ),
{
    let order = rank_summaries(schema_summaries, sort_by);
    let mut top: Vec<TabularSummary> = Vec::new();
    let mut i: usize = 0;
    while i < order.len() && i < n_to_show
        invariant
            0 <= i <= order.len(),
            i <= n_to_show,
            order.len() == schema_summaries.len(),
            forall|k: int| 0 <= k < order.len() ==> #[trigger] order@[k] < schema_summaries.len(),
            top.len() == i,
            forall|k: int| 0 <= k < i ==> (#[trigger] top@[k])@ == schema_summaries@[order@[k] as int]@,
        decreases order.len() - i,
    {
        top.push(schema_summaries[order[i]].clone());
        i += 1;
    }
    assert(is_top_of(
        summary_models(top@),
        summary_models(schema_summaries@),
        order@,
        n_to_show as nat,
    ));
    top
}

} // verus!
