//! Tables: an identifier, an ordered list of columns, a delimiter and a
//! share of the file's bytes; the rows and blocks of rows generated from
//! them.

use crate::column::Column;
use crate::parallel::gather_in_order;
use crate::row::{assemble_row, first_failure, generate_value, is_value_text,
    lemma_first_failure_skip, row_text, value_failure, values_fit};
use crate::size::{byte_len, checked_row_size, nominal_row_size, share_of_file, table_size_bytes,
    total_width};
use crate::text::{concat_blocks, texts_of};
use crate::value::NumberGeneratorError;
use vstd::prelude::*;

verus! {

/// What a table is, as far as contracts are concerned.
pub struct TableView {
    pub id_value: Seq<char>,
    pub columns: Seq<Column>,
    pub delimiter: Seq<char>,
    /// The share of the file's bytes, in millionths.
    pub percent_size: nat,
}

impl TableView {
    /// The nominal size of one row of the table.
    pub open spec fn row_size_bytes(self) -> nat {
        nominal_row_size(self.id_value, self.columns, self.delimiter)
    }

    /// The number of rows generated for a file of `file_size_bytes`: as many
    /// nominal rows as fit into the bytes set aside for the table.
    pub open spec fn row_count(self, file_size_bytes: nat) -> nat {
        table_size_bytes(file_size_bytes, self.percent_size) / self.row_size_bytes()
    }

    /// The failure of the table for a file of `file_size_bytes`: that of
    /// its rows, where it has any row to generate.
    pub open spec fn failure(self, file_size_bytes: nat) -> Option<NumberGeneratorError> {
        if self.row_count(file_size_bytes) == 0 {
            None
        } else {
            first_failure(self.columns)
        }
    }

    /// The texts that a row of the table can be: the identifier and a value
    /// text for each column, joined with the delimiter, and a line feed.
    pub open spec fn is_row_text(self, text: Seq<char>) -> bool {
        exists|values: Seq<Seq<char>>| #[trigger]
            values_fit(self.columns, values) && text == row_text(
                self.id_value,
                self.delimiter,
                values,
            )
    }

    /// Every text of the list is a row of the table.
    pub open spec fn all_rows(self, lines: Seq<Seq<char>>) -> bool {
        forall|i: int| 0 <= i < lines.len() ==> self.is_row_text(#[trigger] lines[i])
    }

    /// The texts that a block of `rows` rows of the table can be: the rows
    /// one after the other.
    pub open spec fn is_block_text(self, rows: nat, text: Seq<char>) -> bool {
        exists|lines: Seq<Seq<char>>| #[trigger]
            self.all_rows(lines) && lines.len() == rows && text == lines.flatten()
    }
}

/// A table of the export: the literal that opens each of its rows, its
/// columns, the delimiter between fields and its share of the file. It has
/// at least one column, and it knows the nominal size of its rows.
#[derive(Debug)]
pub struct Table {
    id_value: String,
    columns: Vec<Column>,
    delimiter: String,
    percent_size: u32,
    row_size_bytes: usize,
}

impl View for Table {
    type V = TableView;

    closed spec fn view(&self) -> TableView {
        TableView {
            id_value: self.id_value@,
            columns: self.columns@,
            delimiter: self.delimiter@,
            percent_size: self.percent_size as nat,
        }
    }
}

impl Clone for Table {
    fn clone(&self) -> (copy: Table)
        ensures
            copy@ == self@,
    {
        proof {
            use_type_invariant(self);
        }
        let columns = self.columns.clone();
        assert(columns@ =~= self.columns@);
        Table {
            id_value: self.id_value.clone(),
            columns,
            delimiter: self.delimiter.clone(),
            percent_size: self.percent_size,
            row_size_bytes: self.row_size_bytes,
        }
    }
}

impl Table {
    #[verifier::type_invariant]
    spec fn well_formed(self) -> bool {
        &&& self.columns@.len() >= 1
        &&& self.row_size_bytes == nominal_row_size(
            self.id_value@,
            self.columns@,
            self.delimiter@,
        )
    }

    /// Builds a table and computes the nominal size of its rows. There is at
    /// least one column, and the nominal row size fits the machine's word.
    /// The share is counted in millionths of the file's bytes.
    pub fn new(id_value: String, columns: Vec<Column>, delimiter: String, percent_size: u32) -> (table:
        Table)
        requires
            columns@.len() >= 1,
            nominal_row_size(id_value@, columns@, delimiter@) <= usize::MAX,
        ensures
            table@ == (TableView {
                id_value: id_value@,
                columns: columns@,
                delimiter: delimiter@,
                percent_size: percent_size as nat,
            }),
    {
        let row_size_bytes: usize = checked_row_size(
            id_value.as_str(),
            &columns,
            delimiter.as_str(),
        ).unwrap();
        Table { id_value, columns, delimiter, percent_size, row_size_bytes }
    }

    /// The literal that opens each row.
    pub fn id_value(&self) -> (id_value: &str)
        ensures
            id_value@ == self@.id_value,
    {
        self.id_value.as_str()
    }

    /// The columns, in declared order; there is at least one.
    pub fn columns(&self) -> (columns: &Vec<Column>)
        ensures
            columns@ == self@.columns,
            columns@.len() >= 1,
    {
        proof {
            use_type_invariant(self);
        }
        &self.columns
    }

    /// The text between two fields of a row.
    pub fn delimiter(&self) -> (delimiter: &str)
        ensures
            delimiter@ == self@.delimiter,
    {
        self.delimiter.as_str()
    }

    /// The share of the file's bytes, in millionths.
    pub fn percent_size(&self) -> (share: u32)
        ensures
            share == self@.percent_size,
    {
        self.percent_size
    }

    /// The nominal size of one row, in bytes: the identifier, each column
    /// at its nominal width, and a delimiter between each two columns.
    pub fn row_size_bytes(&self) -> (size: usize)
        ensures
            size == self@.row_size_bytes(),
            size == byte_len(self@.id_value) + total_width(self@.columns) + (self@.columns.len()
                - 1) * byte_len(self@.delimiter),
    {
        proof {
            use_type_invariant(self);
        }
        self.row_size_bytes
    }

    /// The number of rows that the table has in a file of `file_size_bytes`:
    /// as many nominal rows as fit into the table's share of the file,
    /// rounded up to a whole byte. The nominal row size is not zero.
    pub fn row_count(&self, file_size_bytes: usize) -> (rows: usize)
        requires
            self@.row_size_bytes() > 0,
        ensures
            rows == self@.row_count(file_size_bytes as nat),
            rows == table_size_bytes(file_size_bytes as nat, self@.percent_size)
                / self@.row_size_bytes(),
    {
        share_of_file(file_size_bytes, self.percent_size) / self.row_size_bytes()
    }

    /// Generates one row: the identifier and one value for each column, in
    /// declared order, joined with the delimiter and ended with a line feed.
    /// The row fails with the failure of the first column that has one.
    pub fn generate_table_row(&self) -> (result: Result<String, NumberGeneratorError>)
        ensures
            result is Ok <==> first_failure(self@.columns) is None,
            match result {
                Ok(row) => self@.is_row_text(row@),
                Err(error) => first_failure(self@.columns) == Some(error),
            },
    {
        let mut values: Vec<String> = Vec::new();
        let mut i: usize = 0;
        while i < self.columns.len()
            invariant
                i <= self.columns.len(),
                values.len() == i,
                forall|j: int|
                    0 <= j < i ==> is_value_text(self.columns@[j], (#[trigger] values@[j])@),
                forall|j: int| 0 <= j < i ==> value_failure(#[trigger] self.columns@[j]) is None,
            decreases self.columns.len() - i,
        {
            match generate_value(&self.columns[i]) {
                Ok(value) => {
                    values.push(value);
                },
                Err(error) => {
                    proof {
                        lemma_first_failure_skip(self.columns@, i as int);
                    }
                    return Err(error);
                },
            }
            i += 1;
        }
        proof {
            lemma_first_failure_skip(self.columns@, self.columns@.len() as int);
            assert(values_fit(self.columns@, texts_of(values@)));
        }
        Ok(assemble_row(self.id_value.as_str(), self.delimiter.as_str(), &values))
    }

    /// Generates the table's block of a file of `file_size_bytes`: as many
    /// rows as the nominal row size fits into the table's share of the file,
    /// generated in parallel and joined in index order. The nominal row size
    /// is not zero. With no row to generate the block is empty; else it
    /// fails where a row fails.
    pub fn generate_table(&self, file_size_bytes: usize) -> (result: Result<
        String,
        NumberGeneratorError,
    >)
        requires
            self@.row_size_bytes() > 0,
        ensures
            result is Ok <==> self@.failure(file_size_bytes as nat) is None,
            match result {
                Ok(block) => self@.is_block_text(
                    self@.row_count(file_size_bytes as nat),
                    block@,
                ),
                Err(error) => self@.failure(file_size_bytes as nat) == Some(error),
            },
    {
        let row_count: usize = self.row_count(file_size_bytes);
        let one_row = |index: usize| -> (row: Result<String, NumberGeneratorError>)
            ensures
                row is Ok <==> first_failure(self@.columns) is None,
                match row {
                    Ok(text) => self@.is_row_text(text@),
                    Err(error) => first_failure(self@.columns) == Some(error),
                },
            { self.generate_table_row() };
        match gather_in_order(row_count, one_row) {
            Ok(rows) => {
                proof {
                    assert forall|i: int| 0 <= i < rows@.len() implies self@.is_row_text(
                        #[trigger] texts_of(rows@)[i],
                    ) by {
                        assert(call_ensures(
                            one_row,
                            (i as usize,),
                            Ok::<String, NumberGeneratorError>(rows@[i as usize as int]),
                        ));
                    }
                    assert(self@.all_rows(texts_of(rows@)));
                    if row_count > 0 {
                        assert(self@.is_row_text(texts_of(rows@)[0]));
                    }
                }
                Ok(concat_blocks(&rows))
            },
            Err(error) => Err(error),
        }
    }
}

} // verus!
