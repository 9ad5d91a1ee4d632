//! Schema edits: which columns a rewritten file holds, and in what order.
//!
//! An edit is worked out once per file as a layout, a list of slots that
//! says for each column of the output where it comes from. The same layout
//! is then applied to the schema and to every batch of rows, so that every
//! batch written for a file shares the file's one new schema.

use crate::paths::texts;
use crate::schema::{field_models, Field, FieldModel, Schema};
use vstd::prelude::*;

verus! {

/// Where a column of the output comes from.
#[derive(Debug, Clone, Copy, PartialEq, Eq, Structural)]
pub enum Slot {
    /// The column at this position of the input.
    Original(usize),
    /// The new column at this position of the insert list.
    Added(usize),
}

/// Whether every slot points at a column that exists.
pub open spec fn slots_in_range(slots: Seq<Slot>, n_original: nat, n_added: nat) -> bool {
    forall|i: int|
        0 <= i < slots.len() ==> match #[trigger] slots[i] {
            Slot::Original(k) => k < n_original,
            Slot::Added(k) => k < n_added,
        }
}

/// The columns that `slots` pick from the original and the added ones.
pub open spec fn laid_out<T>(slots: Seq<Slot>, original: Seq<T>, added: Seq<T>) -> Seq<T> {
    Seq::new(
        slots.len(),
        |i: int|
            match slots[i] {
                Slot::Original(k) => original[k as int],
                Slot::Added(k) => added[k as int],
            },
    )
}

/// Whether `name` is one of `columns`.
pub fn contains_name(columns: &Vec<String>, name: &str) -> (found: bool)
    ensures
        found == texts(columns@).contains(name@),
{
    let mut i: usize = 0;
    while i < columns.len()
        invariant
            0 <= i <= columns.len(),
            forall|k: int| 0 <= k < i ==> texts(columns@)[k] != name@,
        decreases columns.len() - i,
    {
        if columns[i].as_str().to_owned() == name.to_owned() {
            assert(texts(columns@)[i as int] == name@);
            return true;
        }
        i += 1;
    }
    false
}

/// The first `upto` fields of `schema` without those named in `columns`.
pub open spec fn remaining_fields(
    schema: Seq<FieldModel>,
    columns: Seq<Seq<char>>,
    upto: nat,
) -> Seq<FieldModel>
    decreases upto,
{
    if upto == 0 || upto > schema.len() {
        Seq::empty()
    } else {
        let before = remaining_fields(schema, columns, (upto - 1) as nat);
        if columns.contains(schema[upto - 1].name) {
            before
        } else {
            before.push(schema[upto - 1])
        }
    }
}

/// The schema that is left when the fields named in `columns` are dropped.
pub open spec fn without_columns(schema: Seq<FieldModel>, columns: Seq<Seq<char>>) -> Seq<
    FieldModel,
> {
    remaining_fields(schema, columns, schema.len())
}

/// The slots of the first `upto` fields of `schema` that are not named in
/// `columns`.
pub open spec fn kept_slots(schema: Seq<FieldModel>, columns: Seq<Seq<char>>, upto: nat) -> Seq<
    Slot,
>
    decreases upto,
{
    if upto == 0 || upto > schema.len() {
        Seq::empty()
    } else {
        let before = kept_slots(schema, columns, (upto - 1) as nat);
        if columns.contains(schema[upto - 1].name) {
            before
        } else {
            before.push(Slot::Original((upto - 1) as usize))
        }
    }
}

/// The layout that drops `columns` picks, from the schema, exactly the
/// fields that remain.
pub proof fn lemma_kept_slots_lay_out_remaining(
    schema: Seq<FieldModel>,
    columns: Seq<Seq<char>>,
    upto: nat,
)
    requires
        upto <= schema.len() <= usize::MAX,
    ensures
        slots_in_range(kept_slots(schema, columns, upto), upto, 0),
        laid_out(kept_slots(schema, columns, upto), schema, Seq::<FieldModel>::empty())
            == remaining_fields(schema, columns, upto),
    decreases upto,
{
    if upto > 0 {
        lemma_kept_slots_lay_out_remaining(schema, columns, (upto - 1) as nat);
        let before = kept_slots(schema, columns, (upto - 1) as nat);
        assert(slots_in_range(before, upto, 0));
    }
    assert(laid_out(kept_slots(schema, columns, upto), schema, Seq::<FieldModel>::empty())
        =~= remaining_fields(schema, columns, upto));
}

/// Works out the layout that drops the fields named in `columns`.
pub fn drop_layout(schema: &Schema, columns: &Vec<String>) -> (slots: Vec<Slot>)
    ensures
        slots@ == kept_slots(schema@, texts(columns@), schema@.len()),
        slots_in_range(slots@, schema@.len(), 0),
{
    let mut slots: Vec<Slot> = Vec::new();
    let mut i: usize = 0;
    while i < schema.fields.len()
        invariant
            0 <= i <= schema.fields.len(),
            slots@ == kept_slots(schema@, texts(columns@), i as nat),
        decreases schema.fields.len() - i,
    {
        assert(schema@[i as int].name == schema.fields@[i as int].name@);
        if !contains_name(columns, schema.fields[i].name.as_str()) {
            slots.push(Slot::Original(i));
        }
        i += 1;
    }
    proof {
        lemma_kept_slots_lay_out_remaining(schema@, texts(columns@), schema@.len());
    }
    slots
}

/// Applies a layout to a schema: the fields that the slots pick from
/// `schema` and `added`.
pub(crate) fn lay_out_schema(slots: &Vec<Slot>, schema: &Schema, added: &Vec<Field>) -> (out: Schema)
    requires
        slots_in_range(slots@, schema@.len(), added.len() as nat),
    ensures
        out@ == laid_out(slots@, schema@, field_models(added@)),
{
    let mut fields: Vec<Field> = Vec::new();
    let mut i: usize = 0;
    while i < slots.len()
        invariant
            0 <= i <= slots.len(),
            slots_in_range(slots@, schema@.len(), added.len() as nat),
            fields.len() == i,
            forall|k: int|
                0 <= k < i ==> #[trigger] fields@[k]@ == laid_out(
                    slots@,
                    schema@,
                    field_models(added@),
                )[k],
        decreases slots.len() - i,
    {
        let field = match slots[i] {
            Slot::Original(k) => {
                assert(schema@[k as int] == schema.fields@[k as int]@);
                schema.fields[k].clone()
            },
            Slot::Added(k) => {
                assert(field_models(added@)[k as int] == added@[k as int]@);
                added[k].clone()
            },
        };
        fields.push(field);
        i += 1;
    }
    let out = Schema { fields };
    assert(out@ =~= laid_out(slots@, schema@, field_models(added@)));
    out
}

/// The first of the first `upto` names in `columns` that no field of
/// `schema` carries.
pub open spec fn first_missing(schema: Seq<FieldModel>, columns: Seq<Seq<char>>, upto: nat) -> Option<
    int,
>
    decreases upto,
{
    if upto == 0 || upto > columns.len() {
        None
    } else {
        match first_missing(schema, columns, (upto - 1) as nat) {
            Some(i) => Some(i),
            None => if crate::schema::has_column(schema, columns[upto - 1]) {
                None
            } else {
                Some(upto - 1)
            },
        }
    }
}

/// A missing column found among the first names is still the first one
/// when more names are looked at.
pub proof fn lemma_missing_stays(
    schema: Seq<FieldModel>,
    columns: Seq<Seq<char>>,
    upto: nat,
    later: nat,
)
    requires
        first_missing(schema, columns, upto) is Some,
        upto <= later <= columns.len(),
    ensures
        first_missing(schema, columns, later) == first_missing(schema, columns, upto),
    decreases later,
{
    if later > upto {
        lemma_missing_stays(schema, columns, upto, (later - 1) as nat);
    }
}

/// Finds the first of `columns` that `schema` does not hold.
pub fn find_missing_column(schema: &Schema, columns: &Vec<String>) -> (missing: Option<usize>)
    ensures
        match missing {
            Some(i) => i < columns.len() && first_missing(
                schema@,
                texts(columns@),
                columns.len() as nat,
            ) == Some(i as int),
            None => first_missing(schema@, texts(columns@), columns.len() as nat) is None,
        },
{
    let mut i: usize = 0;
    while i < columns.len()
        invariant
            0 <= i <= columns.len(),
            first_missing(schema@, texts(columns@), i as nat) is None,
        decreases columns.len() - i,
    {
        assert(texts(columns@)[i as int] == columns@[i as int]@);
        if !schema.contains(columns[i].as_str()) {
            proof {
                lemma_missing_stays(
                    schema@,
                    texts(columns@),
                    (i + 1) as nat,
                    columns.len() as nat,
                );
            }
            return Some(i);
        }
        i += 1;
    }
    None
}

/// The slots of the new columns, among the first `upto`, that are placed
/// at splice point `slot`, in the order they were declared.
pub open spec fn added_at(positions: Seq<usize>, slot: int, upto: nat) -> Seq<Slot>
    decreases upto,
{
    if upto == 0 || upto > positions.len() {
        Seq::empty()
    } else {
        let before = added_at(positions, slot, (upto - 1) as nat);
        if positions[upto - 1] == slot {
            before.push(Slot::Added((upto - 1) as usize))
        } else {
            before
        }
    }
}

/// The layout up to splice point `upto`: for every original position
/// before it, the new columns placed there and then the original column.
pub open spec fn spliced_slots(n: nat, positions: Seq<usize>, upto: nat) -> Seq<Slot>
    decreases upto,
{
    if upto == 0 || upto > n {
        Seq::empty()
    } else {
        spliced_slots(n, positions, (upto - 1) as nat) + added_at(
            positions,
            upto - 1,
            positions.len(),
        ).push(Slot::Original((upto - 1) as usize))
    }
}

/// The layout that inserts new columns into `n` original ones.
///
/// `positions[k]` is the splice point of the `k`-th new column: the
/// position in the original schema before which it goes, `n` for the end.
/// Every splice point refers to original positions, whatever else is
/// inserted; new columns that share a splice point keep their declared
/// order.
pub open spec fn insert_slots(n: nat, positions: Seq<usize>) -> Seq<Slot> {
    spliced_slots(n, positions, n) + added_at(positions, n as int, positions.len())
}

/// Whether every splice point lies within `0..=n`.
pub open spec fn positions_fit(positions: Seq<usize>, n: nat) -> bool {
    forall|k: int| 0 <= k < positions.len() ==> #[trigger] positions[k] <= n
}

/// The slots placed at one splice point all point at new columns.
pub proof fn lemma_added_at_in_range(positions: Seq<usize>, slot: int, upto: nat)
    requires
        upto <= positions.len() <= usize::MAX,
    ensures
        slots_in_range(added_at(positions, slot, upto), 0, upto),
        forall|i: int|
            0 <= i < added_at(positions, slot, upto).len() ==> (#[trigger] added_at(
                positions,
                slot,
                upto,
            )[i]) is Added,
    decreases upto,
{
    if upto > 0 {
        lemma_added_at_in_range(positions, slot, (upto - 1) as nat);
    }
}

/// Every slot of the layout up to a splice point exists.
pub proof fn lemma_spliced_slots_in_range(n: nat, positions: Seq<usize>, upto: nat)
    requires
        upto <= n <= usize::MAX,
        positions.len() <= usize::MAX,
    ensures
        slots_in_range(spliced_slots(n, positions, upto), upto, positions.len()),
    decreases upto,
{
    if upto > 0 {
        lemma_spliced_slots_in_range(n, positions, (upto - 1) as nat);
        lemma_added_at_in_range(positions, upto - 1, positions.len());
    }
}

/// Collects the new columns placed at splice point `slot` onto `slots`.
fn push_added_at(slots: &mut Vec<Slot>, positions: &Vec<usize>, slot: usize)
    ensures
        final(slots)@ == old(slots)@ + added_at(positions@, slot as int, positions.len() as nat),
{
    let ghost start = slots@;
    let mut k: usize = 0;
    while k < positions.len()
        invariant
            0 <= k <= positions.len(),
            slots@ == start + added_at(positions@, slot as int, k as nat),
        decreases positions.len() - k,
    {
        if positions[k] == slot {
            slots.push(Slot::Added(k));
            assert(slots@ =~= start + added_at(positions@, slot as int, (k + 1) as nat));
        }
        k += 1;
    }
}

/// Works out the layout that inserts new columns, one splice point per new
/// column, into a schema of `n_original` columns.
pub fn insert_layout(n_original: usize, positions: &Vec<usize>) -> (slots: Vec<Slot>)
    ensures
        slots@ == insert_slots(n_original as nat, positions@),
        positions_fit(positions@, n_original as nat) ==> slots_in_range(
            slots@,
            n_original as nat,
            positions.len() as nat,
        ),
{
    let mut slots: Vec<Slot> = Vec::new();
    let mut p: usize = 0;
    while p < n_original
        invariant
            0 <= p <= n_original,
            slots@ == spliced_slots(n_original as nat, positions@, p as nat),
        decreases n_original - p,
    {
        let ghost before = slots@;
        push_added_at(&mut slots, positions, p);
        slots.push(Slot::Original(p));
        assert(slots@ =~= before + added_at(positions@, p as int, positions.len() as nat).push(
            Slot::Original(p),
        ));
        p += 1;
    }
    push_added_at(&mut slots, positions, n_original);
    proof {
        lemma_spliced_slots_in_range(n_original as nat, positions@, n_original as nat);
        lemma_added_at_in_range(positions@, n_original as int, positions.len() as nat);
    }
    slots
}

/// The schema after new fields are inserted at their splice points.
pub open spec fn with_columns(
    schema: Seq<FieldModel>,
    added: Seq<FieldModel>,
    positions: Seq<usize>,
) -> Seq<FieldModel> {
    laid_out(insert_slots(schema.len(), positions), schema, added)
}

/// The names of a sequence of fields.
pub open spec fn field_names(fields: Seq<FieldModel>) -> Seq<Seq<char>> {
    Seq::new(fields.len(), |i: int| fields[i].name)
}

/// What remains of the first fields depends on those fields only.
pub proof fn lemma_remaining_prefix(
    s: Seq<FieldModel>,
    t: Seq<FieldModel>,
    columns: Seq<Seq<char>>,
    upto: nat,
)
    requires
        upto <= s.len(),
        upto <= t.len(),
        s.take(upto as int) == t.take(upto as int),
    ensures
        remaining_fields(s, columns, upto) == remaining_fields(t, columns, upto),
    decreases upto,
{
    if upto > 0 {
        assert(s.take(upto - 1) =~= s.take(upto as int).take(upto - 1));
        assert(t.take(upto - 1) =~= t.take(upto as int).take(upto - 1));
        lemma_remaining_prefix(s, t, columns, (upto - 1) as nat);
        assert(s[upto - 1] == s.take(upto as int)[upto - 1]);
        assert(t[upto - 1] == t.take(upto as int)[upto - 1]);
    }
}

/// Dropping columns from a schema with one more field drops them from the
/// schema, and keeps the field unless it is one of them.
pub proof fn lemma_without_columns_push(
    s: Seq<FieldModel>,
    f: FieldModel,
    columns: Seq<Seq<char>>,
)
    ensures
        without_columns(s.push(f), columns) == if columns.contains(f.name) {
            without_columns(s, columns)
        } else {
            without_columns(s, columns).push(f)
        },
{
    let longer = s.push(f);
    assert(longer.take(s.len() as int) =~= s.take(s.len() as int));
    lemma_remaining_prefix(longer, s, columns, s.len());
}

/// Dropping columns from two schemas in a row drops them from each.
pub proof fn lemma_without_columns_concat(
    x: Seq<FieldModel>,
    y: Seq<FieldModel>,
    columns: Seq<Seq<char>>,
)
    ensures
        without_columns(x + y, columns) == without_columns(x, columns) + without_columns(
            y,
            columns,
        ),
    decreases y.len(),
{
    if y.len() == 0 {
        assert(x + y =~= x);
        assert(without_columns(x, columns) + without_columns(y, columns) =~= without_columns(
            x,
            columns,
        ));
    } else {
        let shorter = y.drop_last();
        lemma_without_columns_concat(x, shorter, columns);
        assert(x + y =~= (x + shorter).push(y.last()));
        assert(y =~= shorter.push(y.last()));
        lemma_without_columns_push(x + shorter, y.last(), columns);
        lemma_without_columns_push(shorter, y.last(), columns);
        assert(without_columns(x + y, columns) =~= without_columns(x, columns)
            + without_columns(y, columns));
    }
}

/// Of the new columns placed at one splice point nothing remains once the
/// new names are dropped.
pub proof fn lemma_added_columns_drop(
    schema: Seq<FieldModel>,
    added: Seq<FieldModel>,
    positions: Seq<usize>,
    slot: int,
    upto: nat,
)
    requires
        upto <= positions.len() == added.len() <= usize::MAX,
    ensures
        without_columns(
            laid_out(added_at(positions, slot, upto), schema, added),
            field_names(added),
        ) == Seq::<FieldModel>::empty(),
    decreases upto,
{
    let names = field_names(added);
    if upto > 0 {
        lemma_added_columns_drop(schema, added, positions, slot, (upto - 1) as nat);
        let before = added_at(positions, slot, (upto - 1) as nat);
        if positions[upto - 1] == slot {
            let f = added[upto - 1];
            assert(laid_out(before.push(Slot::Added((upto - 1) as usize)), schema, added)
                =~= laid_out(before, schema, added).push(f));
            assert(names[upto - 1] == f.name);
            lemma_without_columns_push(laid_out(before, schema, added), f, names);
        }
    } else {
        assert(laid_out(added_at(positions, slot, upto), schema, added)
            =~= Seq::<FieldModel>::empty());
    }
}

/// Dropping the new names from the layout up to a splice point leaves the
/// original fields before that point.
pub proof fn lemma_spliced_then_dropped(
    schema: Seq<FieldModel>,
    added: Seq<FieldModel>,
    positions: Seq<usize>,
    upto: nat,
)
    requires
        upto <= schema.len() <= usize::MAX,
        positions.len() == added.len() <= usize::MAX,
        forall|i: int| 0 <= i < schema.len() ==> !field_names(added).contains(schema[i].name),
    ensures
        without_columns(
            laid_out(spliced_slots(schema.len(), positions, upto), schema, added),
            field_names(added),
        ) == schema.take(upto as int),
    decreases upto,
{
    let names = field_names(added);
    let n = schema.len();
    if upto == 0 {
        assert(laid_out(spliced_slots(n, positions, upto), schema, added)
            =~= Seq::<FieldModel>::empty());
        assert(schema.take(0) =~= Seq::<FieldModel>::empty());
    } else {
        lemma_spliced_then_dropped(schema, added, positions, (upto - 1) as nat);
        let before = spliced_slots(n, positions, (upto - 1) as nat);
        let here = added_at(positions, upto - 1, positions.len());
        let field = schema[upto - 1];
        assert(laid_out(before + here.push(Slot::Original((upto - 1) as usize)), schema, added)
            =~= laid_out(before, schema, added) + laid_out(here, schema, added).push(field));
        lemma_without_columns_concat(
            laid_out(before, schema, added),
            laid_out(here, schema, added).push(field),
            names,
        );
        lemma_added_columns_drop(schema, added, positions, upto - 1, positions.len());
        lemma_without_columns_push(laid_out(here, schema, added), field, names);
        assert(schema.take(upto - 1).push(field) =~= schema.take(upto as int));
        assert(schema.take(upto - 1) + Seq::<FieldModel>::empty().push(field) =~= schema.take(
            upto as int,
        ));
    }
}

/// Inserting new columns and then dropping them by name restores the
/// schema: the same field names with the same types in the same order.
///
/// This holds wherever the new columns are placed, as long as none of them
/// takes the name of a field that the schema already holds; dropping that
/// name would take the old field too.
pub proof fn lemma_insert_then_drop_restores_schema(
    schema: Seq<FieldModel>,
    added: Seq<FieldModel>,
    positions: Seq<usize>,
)
    requires
        schema.len() <= usize::MAX,
        positions.len() == added.len() <= usize::MAX,
        forall|i: int| 0 <= i < schema.len() ==> !field_names(added).contains(schema[i].name),
    ensures
        without_columns(with_columns(schema, added, positions), field_names(added)) == schema,
{
    let names = field_names(added);
    let n = schema.len();
    let body = spliced_slots(n, positions, n);
    let tail = added_at(positions, n as int, positions.len());
    assert(laid_out(body + tail, schema, added) =~= laid_out(body, schema, added) + laid_out(
        tail,
        schema,
        added,
    ));
    lemma_without_columns_concat(
        laid_out(body, schema, added),
        laid_out(tail, schema, added),
        names,
    );
    lemma_spliced_then_dropped(schema, added, positions, n);
    lemma_added_columns_drop(schema, added, positions, n as int, positions.len());
    assert(schema.take(n as int) =~= schema);
    assert(schema + Seq::<FieldModel>::empty() =~= schema);
}

/// A name that no field of the schema carries makes some name the first
/// missing one.
pub proof fn lemma_missing_found(
    schema: Seq<FieldModel>,
    columns: Seq<Seq<char>>,
    c: int,
    upto: nat,
)
    requires
        0 <= c < upto <= columns.len(),
        !crate::schema::has_column(schema, columns[c]),
    ensures
        first_missing(schema, columns, upto) is Some,
    decreases upto,
{
    if c < upto - 1 {
        lemma_missing_found(schema, columns, c, (upto - 1) as nat);
    }
}

} // verus!
