//! Rows: one value for each column, after the table's identifier, joined
//! with the delimiter; and the failure of a list of columns.

use crate::column::{Column, ColumnTypes};
use crate::text::texts_of;
use crate::value::{is_date_text, is_number_text, is_quoted_text, number_failure, rand_date,
    rand_number_of_len, rand_string_of_len, NumberGeneratorError};
use vstd::prelude::*;
use vstd::string::StringExecFns;

verus! {

/// The texts that a value of the column can be.
pub open spec fn is_value_text(column: Column, text: Seq<char>) -> bool {
    match column.column_type() {
        ColumnTypes::STRING => is_quoted_text(text, column.size() as nat),
        ColumnTypes::LONG | ColumnTypes::DOUBLE => is_number_text(
            text,
            column.size(),
            column.exponent(),
        ),
        ColumnTypes::DATE => is_date_text(text),
    }
}

/// The reason for which no value of the column can be generated, if there
/// is one: only a numeric column can fail, on its size and exponent.
pub open spec fn value_failure(column: Column) -> Option<NumberGeneratorError> {
    match column.column_type() {
        ColumnTypes::LONG | ColumnTypes::DOUBLE => number_failure(
            column.size(),
            column.exponent(),
        ),
        _ => None,
    }
}

/// The failure of the first column, in declared order, that has one.
pub open spec fn first_failure(columns: Seq<Column>) -> Option<NumberGeneratorError>
    decreases columns.len(),
{
    if columns.len() == 0 {
        None
    } else if value_failure(columns.first()) is Some {
        value_failure(columns.first())
    } else {
        first_failure(columns.drop_first())
    }
}

/// One value text for each column, in order.
pub open spec fn values_fit(columns: Seq<Column>, values: Seq<Seq<char>>) -> bool {
    &&& values.len() == columns.len()
    &&& forall|i: int| 0 <= i < columns.len() ==> is_value_text(columns[i], #[trigger] values[i])
}

/// The identifier followed by each value, the delimiter before every value.
pub open spec fn joined_fields(
    id_value: Seq<char>,
    delimiter: Seq<char>,
    values: Seq<Seq<char>>,
) -> Seq<char>
    decreases values.len(),
{
    if values.len() == 0 {
        id_value
    } else {
        joined_fields(id_value, delimiter, values.drop_last()) + delimiter + values.last()
    }
}

/// A row: the joined fields and a line feed.
pub open spec fn row_text(
    id_value: Seq<char>,
    delimiter: Seq<char>,
    values: Seq<Seq<char>>,
) -> Seq<char> {
    joined_fields(id_value, delimiter, values) + seq!['\n']
}

/// Where no column before `index` fails, the first failure of the whole
/// list is that of the columns from `index` on.
pub proof fn lemma_first_failure_skip(columns: Seq<Column>, index: int)
    requires
        0 <= index <= columns.len(),
        forall|i: int| 0 <= i < index ==> value_failure(#[trigger] columns[i]) is None,
    ensures
        first_failure(columns) == first_failure(columns.skip(index)),
    decreases index,
{
    if index == 0 {
        assert(columns.skip(0) == columns);
    } else {
        lemma_first_failure_skip(columns, index - 1);
        let rest = columns.skip(index - 1);
        assert(rest.first() == columns[index - 1]);
        assert(rest.drop_first() == columns.skip(index));
    }
}

/// A list of columns fails exactly when one of its columns does.
pub proof fn lemma_first_failure_none(columns: Seq<Column>)
    ensures
        first_failure(columns) is None <==> forall|i: int|
            0 <= i < columns.len() ==> value_failure(#[trigger] columns[i]) is None,
{
    if forall|i: int| 0 <= i < columns.len() ==> value_failure(#[trigger] columns[i]) is None {
        lemma_first_failure_skip(columns, columns.len() as int);
    } else {
        let index = choose|i: int|
            0 <= i < columns.len() && value_failure(#[trigger] columns[i]) is Some;
        lemma_failing_column_fails(columns, index);
    }
}

/// A column that fails makes the list fail: with its own failure, where no
/// column before it fails.
pub proof fn lemma_failing_column_fails(columns: Seq<Column>, index: int)
    requires
        0 <= index < columns.len(),
        value_failure(columns[index]) is Some,
    ensures
        first_failure(columns) is Some,
        (forall|i: int| 0 <= i < index ==> value_failure(#[trigger] columns[i]) is None)
            ==> first_failure(columns) == value_failure(columns[index]),
    decreases columns.len(),
{
    if value_failure(columns.first()) is None {
        let rest = columns.drop_first();
        assert(rest[index - 1] == columns[index]);
        lemma_failing_column_fails(rest, index - 1);
        if forall|i: int| 0 <= i < index ==> value_failure(#[trigger] columns[i]) is None {
            assert forall|i: int| 0 <= i < index - 1 implies value_failure(#[trigger] rest[i])
                is None by {
                assert(rest[i] == columns[i + 1]);
            }
        }
    } else if index > 0 {
        assert(!(forall|i: int| 0 <= i < index ==> value_failure(#[trigger] columns[i]) is None));
    }
}

/// A numeric column of size zero makes the list fail, and with
/// `SizeTooLarge` for the size zero where no column before it fails.
pub proof fn lemma_zero_size_number_fails(columns: Seq<Column>, index: int)
    requires
        0 <= index < columns.len(),
        columns[index].column_type() == ColumnTypes::LONG || columns[index].column_type()
            == ColumnTypes::DOUBLE,
        columns[index].size() == 0,
    ensures
        first_failure(columns) is Some,
        (forall|i: int| 0 <= i < index ==> value_failure(#[trigger] columns[i]) is None)
            ==> first_failure(columns) == Some(NumberGeneratorError::SizeTooLarge { size: 0 }),
{
    lemma_failing_column_fails(columns, index);
}

/// Generates one value of the column: a quoted string, a number or a date,
/// as the column's type says.
pub fn generate_value(column: &Column) -> (result: Result<String, NumberGeneratorError>)
    ensures
        result is Ok <==> value_failure(*column) is None,
        match result {
            Ok(text) => is_value_text(*column, text@),
            Err(error) => value_failure(*column) == Some(error),
        },
{
    match column.column_type() {
        ColumnTypes::STRING => Ok(rand_string_of_len(column.size())),
        ColumnTypes::DOUBLE => rand_number_of_len(column.size(), column.exponent()),
        ColumnTypes::LONG => rand_number_of_len(column.size(), column.exponent()),
        ColumnTypes::DATE => Ok(rand_date()),
    }
}

/// Joins the identifier and the values with the delimiter and ends the row
/// with a line feed.
pub fn assemble_row(id_value: &str, delimiter: &str, values: &Vec<String>) -> (row: String)
    ensures
        row@ == row_text(id_value@, delimiter@, texts_of(values@)),
{
    let mut row = String::from_str(id_value);
    let mut i: usize = 0;
    while i < values.len()
        invariant
            i <= values.len(),
            row@ == joined_fields(id_value@, delimiter@, texts_of(values@).subrange(0, i as int)),
        decreases values.len() - i,
    {
        proof {
            let next = texts_of(values@).subrange(0, i + 1);
            assert(next.drop_last() == texts_of(values@).subrange(0, i as int));
            assert(next.last() == values@[i as int]@);
        }
        row.append(delimiter);
        row.append(values[i].as_str());
        i += 1;
    }
    assert(texts_of(values@).subrange(0, values.len() as int) == texts_of(values@));
    row.push('\n');
    row
}

} // verus!
