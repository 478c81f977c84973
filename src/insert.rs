//! INSERT statement assembly: one multi-row statement per table, the
//! column list taken from the first row, one value tuple per row in fetch
//! order.
use vstd::prelude::*;

use crate::custom_error::CustomError;
use crate::literal::{literal_text, parse_mysql_value_to_string, value_view, SqlValue};
use crate::schema::ColumnProps;
use crate::text::{push_char, push_str};

verus! {

/// One fetched cell with the description of its column.
#[derive(Debug, Clone)]
pub struct ColumnValue {
    pub props: ColumnProps,
    pub value: SqlValue,
}

/// One fetched cell of the type-code engine, already in literal text.
#[derive(Debug, Clone)]
pub struct NamedValue {
    pub name: String,
    pub text: String,
}

/// `parts` separated by `sep`.
pub open spec fn join(parts: Seq<Seq<char>>, sep: Seq<char>) -> Seq<char>
    decreases parts.len(),
{
    if parts.len() == 0 {
        seq![]
    } else if parts.len() == 1 {
        parts[0]
    } else {
        join(parts.drop_last(), sep) + sep + parts.last()
    }
}

pub open spec fn backticked(name: Seq<char>) -> Seq<char> {
    seq!['`'] + name + seq!['`']
}

/// `INSERT INTO\n<table> (<c1>, <c2>)\nVALUES\n(<t1>), \n(<t2>);`
pub open spec fn insert_text(
    table: Seq<char>,
    columns: Seq<Seq<char>>,
    tuples: Seq<Seq<char>>,
) -> Seq<char> {
    "INSERT INTO\n"@ + table + " ("@ + join(columns, ", "@) + ")\nVALUES\n("@ + join(
        tuples,
        "), \n("@,
    ) + ");"@
}

pub open spec fn views(v: Seq<String>) -> Seq<Seq<char>> {
    v.map_values(|s: String| s@)
}

/// Appends `parts` separated by `sep`.
pub fn push_joined(out: &mut String, parts: &Vec<String>, sep: &str)
    ensures
        final(out)@ == old(out)@ + join(views(parts@), sep@),
{
    let ghost start = out@;
    let mut i: usize = 0;
    while i < parts.len()
        invariant
            i <= parts.len(),
            out@ == start + join(views(parts@).take(i as int), sep@),
        decreases parts.len() - i,
    {
        if i > 0 {
            push_str(out, sep);
        }
        push_str(out, parts[i].as_str());
        proof {
            let t = views(parts@).take(i + 1);
            assert(t.drop_last() =~= views(parts@).take(i as int));
            if i == 0 {
                assert(views(parts@).take(0) =~= Seq::<Seq<char>>::empty());
            }
        }
        i = i + 1;
    }
    assert(views(parts@).take(parts.len() as int) =~= views(parts@));
}

/// Assembles the statement from quoted column names and value tuples.
pub fn push_insert(out: &mut String, table: &String, columns: &Vec<String>, tuples: &Vec<String>)
    ensures
        final(out)@ == old(out)@ + insert_text(table@, views(columns@), views(tuples@)),
{
    let ghost start = out@;
    push_str(out, "INSERT INTO\n");
    push_str(out, table.as_str());
    push_str(out, " (");
    push_joined(out, columns, ", ");
    push_str(out, ")\nVALUES\n(");
    push_joined(out, tuples, "), \n(");
    push_str(out, ");");
    assert(out@ =~= start + insert_text(table@, views(columns@), views(tuples@)));
}

/// `row` holds the columns of `first`, in the same order.
pub open spec fn same_columns(row: Seq<ColumnValue>, first: Seq<ColumnValue>) -> bool {
    &&& row.len() == first.len()
    &&& forall|j: int| 0 <= j < first.len() ==> (#[trigger] row[j]).props.name@ == first[j].props.name@
}

/// Every row holds the columns of the first row, in the same order, so the
/// j-th value of each tuple belongs to the j-th column of the list.
pub open spec fn rows_aligned(data: Seq<Vec<ColumnValue>>) -> bool {
    forall|k: int| 0 <= k < data.len() ==> same_columns((#[trigger] data[k])@, data[0]@)
}

/// `row` holds the columns of `first`, in the same order.
pub open spec fn same_names(row: Seq<NamedValue>, first: Seq<NamedValue>) -> bool {
    &&& row.len() == first.len()
    &&& forall|j: int| 0 <= j < first.len() ==> (#[trigger] row[j]).name@ == first[j].name@
}

/// Every row holds the columns of the first row, in the same order.
pub open spec fn named_rows_aligned(data: Seq<Vec<NamedValue>>) -> bool {
    forall|k: int| 0 <= k < data.len() ==> same_names((#[trigger] data[k])@, data[0]@)
}

fn row_has_columns(row: &Vec<ColumnValue>, first: &Vec<ColumnValue>) -> (r: bool)
    ensures
        r == same_columns(row@, first@),
{
    if row.len() != first.len() {
        return false;
    }
    let mut j: usize = 0;
    while j < first.len()
        invariant
            row.len() == first.len(),
            j <= first.len(),
            forall|i: int| 0 <= i < j ==> (#[trigger] row@[i]).props.name@ == first@[i].props.name@,
        decreases first.len() - j,
    {
        if row[j].props.name != first[j].props.name {
            return false;
        }
        j = j + 1;
    }
    true
}

/// True when every row holds the first row's columns in the same order.
pub fn rows_are_aligned(rows: &Vec<Vec<ColumnValue>>) -> (r: bool)
    ensures
        r == rows_aligned(rows@),
{
    if rows.len() == 0 {
        return true;
    }
    let mut k: usize = 0;
    while k < rows.len()
        invariant
            rows@.len() > 0,
            k <= rows.len(),
            forall|i: int| 0 <= i < k ==> same_columns((#[trigger] rows@[i])@, rows@[0]@),
        decreases rows.len() - k,
    {
        if !row_has_columns(&rows[k], &rows[0]) {
            return false;
        }
        k = k + 1;
    }
    true
}

fn row_has_names(row: &Vec<NamedValue>, first: &Vec<NamedValue>) -> (r: bool)
    ensures
        r == same_names(row@, first@),
{
    if row.len() != first.len() {
        return false;
    }
    let mut j: usize = 0;
    while j < first.len()
        invariant
            row.len() == first.len(),
            j <= first.len(),
            forall|i: int| 0 <= i < j ==> (#[trigger] row@[i]).name@ == first@[i].name@,
        decreases first.len() - j,
    {
        if row[j].name != first[j].name {
            return false;
        }
        j = j + 1;
    }
    true
}

/// True when every row holds the first row's columns in the same order.
pub fn named_rows_are_aligned(rows: &Vec<Vec<NamedValue>>) -> (r: bool)
    ensures
        r == named_rows_aligned(rows@),
{
    if rows.len() == 0 {
        return true;
    }
    let mut k: usize = 0;
    while k < rows.len()
        invariant
            rows@.len() > 0,
            k <= rows.len(),
            forall|i: int| 0 <= i < k ==> same_names((#[trigger] rows@[i])@, rows@[0]@),
        decreases rows.len() - k,
    {
        if !row_has_names(&rows[k], &rows[0]) {
            return false;
        }
        k = k + 1;
    }
    true
}

/// Literal texts of a row's cells, in order; `None` if one has none.
pub open spec fn row_literals(row: Seq<ColumnValue>) -> Option<Seq<Seq<char>>>
    decreases row.len(),
{
    if row.len() == 0 {
        Some(seq![])
    } else {
        match row_literals(row.drop_last()) {
            Some(prev) => match literal_text(row.last().props.data_type@, value_view(row.last().value)) {
                Some(t) => Some(prev.push(t)),
                None => None,
            },
            None => None,
        }
    }
}

pub open spec fn all_literals(data: Seq<Vec<ColumnValue>>) -> bool {
    forall|k: int| 0 <= k < data.len() ==> (#[trigger] row_literals(data[k]@)) is Some
}

/// The value tuple of one row: its literals separated by `, `.
pub open spec fn tuple_text(row: Seq<ColumnValue>) -> Seq<char> {
    join(row_literals(row)->0, ", "@)
}

/// The statement for the rows of `table`: empty when there is no row or
/// no column; otherwise one tuple per row, in order.
pub open spec fn mysql_insert_text(data: Seq<Vec<ColumnValue>>, table: Seq<char>) -> Seq<char> {
    if data.len() == 0 || data[0].len() == 0 {
        seq![]
    } else {
        insert_text(
            table,
            data[0]@.map_values(|c: ColumnValue| backticked(c.props.name@)),
            Seq::new(data.len(), |k: int| tuple_text(data[k]@)),
        )
    }
}

/// Insert shape: no row gives the empty text; `n` rows with columns give
/// one statement whose column list comes from the first row and whose
/// value tuples are exactly the `n` rows' tuples, in fetch order.
pub proof fn lemma_insert_shape(data: Seq<Vec<ColumnValue>>, table: Seq<char>)
    ensures
        data.len() == 0 ==> mysql_insert_text(data, table) == Seq::<char>::empty(),
        data.len() > 0 && data[0].len() > 0 ==> exists|tuples: Seq<Seq<char>>|
            tuples.len() == data.len() && (forall|k: int|
                0 <= k < data.len() ==> #[trigger] tuples[k] == tuple_text(data[k]@))
                && mysql_insert_text(data, table) == insert_text(
                table,
                data[0]@.map_values(|c: ColumnValue| backticked(c.props.name@)),
                tuples,
            ),
{
    if data.len() > 0 && data[0].len() > 0 {
        let tuples = Seq::new(data.len(), |k: int| tuple_text(data[k]@));
        assert(tuples.len() == data.len());
    }
}

fn row_tuple(row: &Vec<ColumnValue>) -> (r: Option<String>)
    ensures
        r is Some <==> row_literals(row@) is Some,
        r matches Some(t) ==> t@ == tuple_text(row@),
{
    let mut parts: Vec<String> = Vec::new();
    let mut i: usize = 0;
    while i < row.len()
        invariant
            i <= row.len(),
            row_literals(row@.take(i as int)) == Some(views(parts@)),
        decreases row.len() - i,
    {
        let cell = &row[i];
        assert(row@.take(i + 1).drop_last() =~= row@.take(i as int));
        match parse_mysql_value_to_string(&cell.props, &cell.value) {
            Some(t) => {
                parts.push(t);
                assert(views(parts@) =~= row_literals(row@.take(i + 1))->0);
            },
            None => {
                proof {
                    assert(row_literals(row@.take(i + 1)) is None);
                    lemma_row_literals_none(row@, i + 1);
                }
                return None;
            },
        }
        i = i + 1;
    }
    assert(row@.take(row.len() as int) =~= row@);
    let mut out = String::new();
    push_joined(&mut out, &parts, ", ");
    Some(out)
}

proof fn lemma_row_literals_none(row: Seq<ColumnValue>, k: int)
    requires
        0 <= k <= row.len(),
        row_literals(row.take(k)) is None,
    ensures
        row_literals(row) is None,
    decreases row.len() - k,
{
    if k < row.len() {
        assert(row.take(k + 1).drop_last() =~= row.take(k));
        lemma_row_literals_none(row, k + 1);
    } else {
        assert(row.take(k) =~= row);
    }
}

/// The INSERT statement for the fetched rows of `table`, column names in
/// backticks. Fails when a cell has no literal form (bytes that are not
/// text in a non-binary column).
pub fn generate_insert_query(data: &Vec<Vec<ColumnValue>>, table: &String) -> (r: Result<
    String,
    CustomError,
>)
    requires
        rows_aligned(data@),
    ensures
        r is Ok <==> (data@.len() == 0 || data@[0].len() == 0 || all_literals(data@)),
        r matches Ok(s) ==> s@ == mysql_insert_text(data@, table@),
        r matches Err(e) ==> e is DbTableStructure,
{
    if data.len() == 0 || data[0].len() == 0 {
        return Ok(String::new());
    }
    let first = &data[0];
    let mut columns: Vec<String> = Vec::new();
    let mut i: usize = 0;
    while i < first.len()
        invariant
            i <= first.len(),
            data@.len() > 0,
            first == &data@[0],
            views(columns@) == first@.take(i as int).map_values(
                |c: ColumnValue| backticked(c.props.name@),
            ),
        decreases first.len() - i,
    {
        let mut name = String::new();
        push_char(&mut name, '`');
        push_str(&mut name, first[i].props.name.as_str());
        push_char(&mut name, '`');
        let ghost before = views(columns@);
        assert(name@ =~= backticked(first@[i as int].props.name@));
        columns.push(name);
        proof {
            assert(views(columns@) =~= before.push(name@));
            assert(first@.take(i + 1).map_values(|c: ColumnValue| backticked(c.props.name@))
                =~= first@.take(i as int).map_values(|c: ColumnValue| backticked(c.props.name@)).push(
                backticked(first@[i as int].props.name@),
            ));
        }
        i = i + 1;
    }
    assert(first@.take(first.len() as int) =~= first@);
    let mut tuples: Vec<String> = Vec::new();
    let mut k: usize = 0;
    while k < data.len()
        invariant
            k <= data.len(),
            data@.len() > 0,
            data@[0].len() > 0,
            views(tuples@) == Seq::new(k as nat, |j: int| tuple_text(data@[j]@)),
            forall|j: int| 0 <= j < k ==> (#[trigger] row_literals(data@[j]@)) is Some,
        decreases data.len() - k,
    {
        match row_tuple(&data[k]) {
            Some(t) => {
                let ghost before = views(tuples@);
                tuples.push(t);
                proof {
                    assert(views(tuples@) =~= before.push(t@));
                    assert(Seq::new((k + 1) as nat, |j: int| tuple_text(data@[j]@)) =~= Seq::new(
                        k as nat,
                        |j: int| tuple_text(data@[j]@),
                    ).push(tuple_text(data@[k as int]@)));
                }
            },
            None => {
                assert(row_literals(data@[k as int]@) is None);
                return Err(CustomError::DbTableStructure);
            },
        }
        k = k + 1;
    }
    let mut out = String::new();
    push_insert(&mut out, table, &columns, &tuples);
    Ok(out)
}

/// The statement for rows of the type-code engine: column names as they
/// are, cell texts as they are.
pub open spec fn plain_insert_text(data: Seq<Vec<NamedValue>>, table: Seq<char>) -> Seq<char> {
    if data.len() == 0 || data[0].len() == 0 {
        seq![]
    } else {
        insert_text(
            table,
            data[0]@.map_values(|c: NamedValue| c.name@),
            Seq::new(
                data.len(),
                |k: int| join(data[k]@.map_values(|c: NamedValue| c.text@), ", "@),
            ),
        )
    }
}

pub fn generate_plain_insert_query(data: &Vec<Vec<NamedValue>>, table: &String) -> (r: String)
    requires
        named_rows_aligned(data@),
    ensures
        r@ == plain_insert_text(data@, table@),
{
    if data.len() == 0 || data[0].len() == 0 {
        return String::new();
    }
    let first = &data[0];
    let mut columns: Vec<String> = Vec::new();
    let mut i: usize = 0;
    while i < first.len()
        invariant
            i <= first.len(),
            data@.len() > 0,
            first == &data@[0],
            views(columns@) == first@.take(i as int).map_values(|c: NamedValue| c.name@),
        decreases first.len() - i,
    {
        let ghost before = views(columns@);
        let name = first[i].name.clone();
        columns.push(name);
        proof {
            assert(views(columns@) =~= before.push(name@));
            assert(first@.take(i + 1).map_values(|c: NamedValue| c.name@) =~= first@.take(
                i as int,
            ).map_values(|c: NamedValue| c.name@).push(first@[i as int].name@));
        }
        i = i + 1;
    }
    assert(first@.take(first.len() as int) =~= first@);
    let mut tuples: Vec<String> = Vec::new();
    let mut k: usize = 0;
    while k < data.len()
        invariant
            k <= data.len(),
            views(tuples@) == Seq::new(
                k as nat,
                |j: int| join(data@[j]@.map_values(|c: NamedValue| c.text@), ", "@),
            ),
        decreases data.len() - k,
    {
        let row = &data[k];
        let mut texts: Vec<String> = Vec::new();
        let mut i: usize = 0;
        while i < row.len()
            invariant
                i <= row.len(),
                k < data@.len(),
                row == &data@[k as int],
                views(texts@) == row@.take(i as int).map_values(|c: NamedValue| c.text@),
            decreases row.len() - i,
        {
            let ghost before = views(texts@);
            let text = row[i].text.clone();
            texts.push(text);
            proof {
                assert(views(texts@) =~= before.push(text@));
                assert(row@.take(i + 1).map_values(|c: NamedValue| c.text@) =~= row@.take(
                    i as int,
                ).map_values(|c: NamedValue| c.text@).push(row@[i as int].text@));
            }
            i = i + 1;
        }
        assert(row@.take(row.len() as int) =~= row@);
        let mut t = String::new();
        push_joined(&mut t, &texts, ", ");
        let ghost before = views(tuples@);
        tuples.push(t);
        proof {
            assert(views(tuples@) =~= before.push(t@));
            assert(Seq::new(
                (k + 1) as nat,
                |j: int| join(data@[j]@.map_values(|c: NamedValue| c.text@), ", "@),
            ) =~= Seq::new(
                k as nat,
                |j: int| join(data@[j]@.map_values(|c: NamedValue| c.text@), ", "@),
            ).push(join(data@[k as int]@.map_values(|c: NamedValue| c.text@), ", "@)));
        }
        k = k + 1;
    }
    let mut out = String::new();
    push_insert(&mut out, table, &columns, &tuples);
    out
}

} // verus!
