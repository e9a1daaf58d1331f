//! Byte budgets: the nominal size of a row, and the bytes that a table is
//! given in a file. Shares of a file are counted in millionths.

use crate::column::{Column, ColumnTypes};
use vstd::prelude::*;
use vstd::utf8::encode_utf8;

verus! {

/// The share that stands for the whole file.
pub const WHOLE_SHARE: u32 = 1_000_000;

/// The number of bytes that a text takes in UTF-8.
pub open spec fn byte_len(text: Seq<char>) -> nat {
    encode_utf8(text).len()
}

/// The width that a column is counted with in a row: ten for a date, the
/// declared size for every other type.
pub open spec fn nominal_width(column: Column) -> nat {
    match column.column_type() {
        ColumnTypes::DATE => 10,
        _ => column.size() as nat,
    }
}

/// The sum of the nominal widths of the columns.
pub open spec fn total_width(columns: Seq<Column>) -> nat
    decreases columns.len(),
{
    if columns.len() == 0 {
        0
    } else {
        total_width(columns.drop_last()) + nominal_width(columns.last())
    }
}

/// The number of delimiters between the columns: one less than there are
/// columns.
pub open spec fn delimiter_count(columns: Seq<Column>) -> nat {
    if columns.len() >= 1 {
        (columns.len() - 1) as nat
    } else {
        0
    }
}

/// The nominal size of a row: the identifier, the nominal widths of the
/// columns, and one delimiter between each two columns.
pub open spec fn nominal_row_size(
    id_value: Seq<char>,
    columns: Seq<Column>,
    delimiter: Seq<char>,
) -> nat {
    byte_len(id_value) + total_width(columns) + delimiter_count(columns) * byte_len(delimiter)
}

/// The bytes set aside for a table in a file of `file_size_bytes`: the
/// table's share of them, rounded up to a whole byte, and no more than the
/// machine's word can count.
pub open spec fn table_size_bytes(file_size_bytes: nat, percent_size: nat) -> nat {
    let rounded_up = (file_size_bytes * percent_size + (WHOLE_SHARE - 1)) / (WHOLE_SHARE as int);
    if rounded_up > usize::MAX {
        usize::MAX as nat
    } else {
        rounded_up as nat
    }
}

/// The width of the first columns is no more than that of all of them.
pub proof fn lemma_total_width_prefix(columns: Seq<Column>, count: int)
    requires
        0 <= count <= columns.len(),
    ensures
        total_width(columns.subrange(0, count)) <= total_width(columns),
    decreases columns.len(),
{
    if count == columns.len() {
        assert(columns.subrange(0, count) == columns);
    } else {
        lemma_total_width_prefix(columns.drop_last(), count);
        assert(columns.drop_last().subrange(0, count) == columns.subrange(0, count));
    }
}

/// The bytes set aside for a table are its share of the file rounded up to
/// a whole byte, unless that is more than the machine's word can count.
pub proof fn lemma_table_size_is_ceiling(file_size_bytes: nat, percent_size: nat)
    ensures
        table_size_bytes(file_size_bytes, percent_size) <= usize::MAX,
        table_size_bytes(file_size_bytes, percent_size) < usize::MAX ==> {
            &&& file_size_bytes * percent_size <= table_size_bytes(file_size_bytes, percent_size)
                * WHOLE_SHARE
            &&& table_size_bytes(file_size_bytes, percent_size) * WHOLE_SHARE < file_size_bytes
                * percent_size + WHOLE_SHARE
        },
{
}

/// A table whose share is no more than the whole file is given no more
/// bytes than the file has, and all of them where its share is the whole.
pub proof fn lemma_table_size_within_file(file_size_bytes: nat, percent_size: nat)
    requires
        percent_size <= WHOLE_SHARE,
        file_size_bytes <= usize::MAX,
    ensures
        table_size_bytes(file_size_bytes, percent_size) <= file_size_bytes,
        percent_size == WHOLE_SHARE ==> table_size_bytes(file_size_bytes, percent_size)
            == file_size_bytes,
{
    assert(file_size_bytes * percent_size <= file_size_bytes * WHOLE_SHARE) by (nonlinear_arith)
        requires
            percent_size <= WHOLE_SHARE,
    ;
}

/// The nominal size of a row with this identifier, these columns and this
/// delimiter, where the machine's word can hold it.
pub fn checked_row_size(id_value: &str, columns: &Vec<Column>, delimiter: &str) -> (size: Option<
    usize,
>)
    ensures
        match size {
            Some(size) => size == nominal_row_size(id_value@, columns@, delimiter@),
            None => nominal_row_size(id_value@, columns@, delimiter@) > usize::MAX,
        },
{
    let id_len: usize = id_value.as_bytes().len();
    let delimiter_len: usize = delimiter.as_bytes().len();
    let mut width: usize = 0;
    let mut i: usize = 0;
    while i < columns.len()
        invariant
            i <= columns.len(),
            width == total_width(columns@.subrange(0, i as int)),
        decreases columns.len() - i,
    {
        proof {
            assert(columns@.subrange(0, i + 1).drop_last() == columns@.subrange(0, i as int));
            lemma_total_width_prefix(columns@, i + 1);
        }
        let column = columns[i];
        let column_width: usize = match column.column_type() {
            ColumnTypes::STRING => column.size() as usize,
            ColumnTypes::DOUBLE => column.size() as usize,
            ColumnTypes::LONG => column.size() as usize,
            ColumnTypes::DATE => 10,
        };
        match width.checked_add(column_width) {
            Some(wider) => {
                width = wider;
            },
            None => {
                return None;
            },
        }
        i += 1;
    }
    assert(columns@.subrange(0, columns.len() as int) == columns@);
    let gaps: usize = if columns.len() >= 1 {
        columns.len() - 1
    } else {
        0
    };
    match gaps.checked_mul(delimiter_len) {
        Some(delimiters) => match width.checked_add(delimiters) {
            Some(fields) => fields.checked_add(id_len),
            None => None,
        },
        None => None,
    }
}

/// The bytes set aside in a file of `file_size_bytes` for a table with the
/// share `percent_size`.
pub fn share_of_file(file_size_bytes: usize, percent_size: u32) -> (bytes: usize)
    ensures
        bytes == table_size_bytes(file_size_bytes as nat, percent_size as nat),
{
    assert(file_size_bytes * percent_size <= 0xffff_ffff_ffff_ffff * 0xffff_ffff)
        by (nonlinear_arith)
        requires
            file_size_bytes <= 0xffff_ffff_ffff_ffff,
            percent_size <= 0xffff_ffff,
    ;
    let scaled: u128 = file_size_bytes as u128 * percent_size as u128;
    let rounded_up: u128 = (scaled + (WHOLE_SHARE - 1) as u128) / WHOLE_SHARE as u128;
    if rounded_up > usize::MAX as u128 {
        usize::MAX
    } else {
        rounded_up as usize
    }
}

} // verus!
