//! Export files: an ordered list of tables whose shares make up the whole
//! file, and the target size of the file.

use crate::column::ColumnTypes;
use crate::parallel::gather_in_order;
use crate::row::{lemma_zero_size_number_fails, value_failure};
use crate::size::{lemma_table_size_within_file, table_size_bytes, WHOLE_SHARE};
use crate::table::{Table, TableView};
use crate::text::{concat_blocks, texts_of};
use crate::value::NumberGeneratorError;
use vstd::prelude::*;

verus! {

/// Why an export file could not be built.
#[derive(Debug, Clone, Copy, PartialEq, Eq, Structural)]
pub enum ExportFileError {
    /// The shares of the tables do not add up to the whole file. The sum
    /// that they do add up to is reported, in millionths.
    SumPercentSizeIncorrect { sum_percent_size: u128 },
}

/// The views of the tables of a list, in the list's order.
pub open spec fn views_of(tables: Seq<Table>) -> Seq<TableView> {
    tables.map_values(|table: Table| table@)
}

/// The sum of the shares of the tables, in millionths.
pub open spec fn share_sum(tables: Seq<TableView>) -> nat
    decreases tables.len(),
{
    if tables.len() == 0 {
        0
    } else {
        share_sum(tables.drop_last()) + tables.last().percent_size
    }
}

/// What an export file is, as far as contracts are concerned.
pub struct ExportFileView {
    pub tables: Seq<TableView>,
    pub file_size_bytes: nat,
}

impl ExportFileView {
    /// No table has a row to generate that fails.
    pub open spec fn no_failure(self) -> bool {
        forall|i: int|
            0 <= i < self.tables.len() ==> (#[trigger] self.tables[i]).failure(
                self.file_size_bytes,
            ) is None
    }

    /// Some table fails with this error.
    pub open spec fn fails_with(self, error: NumberGeneratorError) -> bool {
        exists|i: int|
            0 <= i < self.tables.len() && (#[trigger] self.tables[i]).failure(
                self.file_size_bytes,
            ) == Some(error)
    }

    /// One block of text for each table, in order, each with the number of
    /// rows that the table has in a file of this size.
    pub open spec fn blocks_fit(self, blocks: Seq<Seq<char>>) -> bool {
        &&& blocks.len() == self.tables.len()
        &&& forall|i: int|
            0 <= i < self.tables.len() ==> self.tables[i].is_block_text(
                self.tables[i].row_count(self.file_size_bytes),
                #[trigger] blocks[i],
            )
    }

    /// The texts that the file can be: the blocks of its tables, one after
    /// the other in declared order.
    pub open spec fn is_file_text(self, text: Seq<char>) -> bool {
        exists|blocks: Seq<Seq<char>>| #[trigger] self.blocks_fit(blocks) && text == blocks.flatten()
    }
}

/// An export file: its tables in order and its target size. The shares of
/// the tables add up to the whole file.
#[derive(Debug)]
pub struct ExportFile {
    tables: Vec<Table>,
    file_size_bytes: usize,
}

impl View for ExportFile {
    type V = ExportFileView;

    closed spec fn view(&self) -> ExportFileView {
        ExportFileView {
            tables: views_of(self.tables@),
            file_size_bytes: self.file_size_bytes as nat,
        }
    }
}

/// No table has a share above the sum of all shares.
pub proof fn lemma_share_within_sum(tables: Seq<TableView>, index: int)
    requires
        0 <= index < tables.len(),
    ensures
        tables[index].percent_size <= share_sum(tables),
    decreases tables.len(),
{
    if index < tables.len() - 1 {
        lemma_share_within_sum(tables.drop_last(), index);
    }
}

/// Where the shares add up to the whole file, no table is given more bytes
/// than the file has.
pub proof fn lemma_table_fits_file(file: ExportFileView, index: int)
    requires
        share_sum(file.tables) == WHOLE_SHARE,
        file.file_size_bytes <= usize::MAX,
        0 <= index < file.tables.len(),
    ensures
        table_size_bytes(file.file_size_bytes, file.tables[index].percent_size)
            <= file.file_size_bytes,
{
    lemma_share_within_sum(file.tables, index);
    lemma_table_size_within_file(file.file_size_bytes, file.tables[index].percent_size);
}

/// A numeric column of size zero, in a table that has a row to generate,
/// makes the table fail and with it the file; the table fails with
/// `SizeTooLarge` for the size zero where no column before that one fails.
pub proof fn lemma_zero_size_number_fails_file(file: ExportFileView, table: int, column: int)
    requires
        0 <= table < file.tables.len(),
        0 <= column < file.tables[table].columns.len(),
        file.tables[table].columns[column].column_type() == ColumnTypes::LONG
            || file.tables[table].columns[column].column_type() == ColumnTypes::DOUBLE,
        file.tables[table].columns[column].size() == 0,
        file.tables[table].row_count(file.file_size_bytes) > 0,
    ensures
        file.tables[table].failure(file.file_size_bytes) is Some,
        !file.no_failure(),
        (forall|i: int|
            0 <= i < column ==> value_failure(#[trigger] file.tables[table].columns[i]) is None)
            ==> file.tables[table].failure(file.file_size_bytes) == Some(
            NumberGeneratorError::SizeTooLarge { size: 0 },
        ),
{
    lemma_zero_size_number_fails(file.tables[table].columns, column);
}

impl ExportFile {
    #[verifier::type_invariant]
    spec fn well_formed(self) -> bool {
        share_sum(views_of(self.tables@)) == WHOLE_SHARE
    }

    /// Builds an export file from its tables and its target size. The
    /// shares of the tables must add up to exactly the whole file; if they
    /// do not, the sum that they add up to is reported.
    pub fn new(tables: Vec<Table>, file_size_bytes: usize) -> (result: Result<
        ExportFile,
        ExportFileError,
    >)
        ensures
            result is Ok <==> share_sum(views_of(tables@)) == WHOLE_SHARE,
            match result {
                Ok(file) => file@ == (ExportFileView {
                    tables: views_of(tables@),
                    file_size_bytes: file_size_bytes as nat,
                }),
                Err(ExportFileError::SumPercentSizeIncorrect { sum_percent_size }) => {
                    sum_percent_size == share_sum(views_of(tables@))
                },
            },
    {
        let mut sum_percent_size: u128 = 0;
        let mut i: usize = 0;
        while i < tables.len()
            invariant
                i <= tables.len(),
                sum_percent_size == share_sum(views_of(tables@).subrange(0, i as int)),
                sum_percent_size <= i * u32::MAX,
            decreases tables.len() - i,
        {
            proof {
                let next = views_of(tables@).subrange(0, i + 1);
                assert(next.drop_last() == views_of(tables@).subrange(0, i as int));
                assert(next.last() == tables@[i as int]@);
                assert(i * u32::MAX + u32::MAX == (i + 1) * u32::MAX) by (nonlinear_arith);
                assert(i * u32::MAX <= usize::MAX * u32::MAX) by (nonlinear_arith)
                    requires
                        i <= usize::MAX,
                ;
            }
            sum_percent_size = sum_percent_size + tables[i].percent_size() as u128;
            i += 1;
        }
        assert(views_of(tables@).subrange(0, tables.len() as int) == views_of(tables@));
        if sum_percent_size != WHOLE_SHARE as u128 {
            return Err(ExportFileError::SumPercentSizeIncorrect { sum_percent_size });
        }
        Ok(ExportFile { tables, file_size_bytes })
    }

    /// The tables, in declared order; their shares add up to the whole
    /// file.
    pub fn tables(&self) -> (tables: &Vec<Table>)
        ensures
            views_of(tables@) == self@.tables,
            share_sum(self@.tables) == WHOLE_SHARE,
    {
        proof {
            use_type_invariant(self);
        }
        &self.tables
    }

    /// The target size of the file, in bytes.
    pub fn file_size_bytes(&self) -> (size: usize)
        ensures
            size == self@.file_size_bytes,
    {
        self.file_size_bytes
    }

    /// Generates the text of one file: the block of each table, generated
    /// in parallel and joined in declared order. Every table has a nominal
    /// row size above zero. The file fails where a table fails, with the
    /// error of one such table.
    pub fn generate_export_file(&self) -> (result: Result<String, NumberGeneratorError>)
        requires
            forall|i: int|
                0 <= i < self@.tables.len() ==> (#[trigger] self@.tables[i]).row_size_bytes() > 0,
        ensures
            result is Ok <==> self@.no_failure(),
            match result {
                Ok(text) => self@.is_file_text(text@),
                Err(error) => self@.fails_with(error),
            },
    {
        let one_table = |index: usize| -> (block: Result<String, NumberGeneratorError>)
            requires
                index < self.tables@.len(),
            ensures
                block is Ok <==> self@.tables[index as int].failure(self@.file_size_bytes) is None,
                match block {
                    Ok(text) => self@.tables[index as int].is_block_text(
                        self@.tables[index as int].row_count(self@.file_size_bytes),
                        text@,
                    ),
                    Err(error) => self@.tables[index as int].failure(self@.file_size_bytes)
                        == Some(error),
                },
            {
                assert(self@.tables[index as int] == self.tables@[index as int]@);
                self.tables[index].generate_table(self.file_size_bytes)
            };
        match gather_in_order(self.tables.len(), one_table) {
            Ok(blocks) => {
                proof {
                    assert forall|i: int| 0 <= i < self@.tables.len() implies {
                        &&& (#[trigger] self@.tables[i]).failure(self@.file_size_bytes) is None
                        &&& self@.tables[i].is_block_text(
                            self@.tables[i].row_count(self@.file_size_bytes),
                            texts_of(blocks@)[i],
                        )
                    } by {
                        assert(call_ensures(
                            one_table,
                            (i as usize,),
                            Ok::<String, NumberGeneratorError>(blocks@[i as usize as int]),
                        ));
                    }
                    assert(self@.blocks_fit(texts_of(blocks@)));
                }
                Ok(concat_blocks(&blocks))
            },
            Err(error) => {
                proof {
                    let index = choose|index: usize|
                        index < self.tables.len() && #[trigger] call_ensures(
                            one_table,
                            (index,),
                            Err::<String, NumberGeneratorError>(error),
                        );
                    assert(self@.tables[index as int].failure(self@.file_size_bytes) == Some(
                        error,
                    ));
                }
                Err(error)
            },
        }
    }
}

} // verus!
