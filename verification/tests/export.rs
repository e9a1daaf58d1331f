use ucsvgen::size::{share_of_file, WHOLE_SHARE};
use ucsvgen::{Column, ColumnTypes, ExportFile, ExportFileError, NumberGeneratorError, Table};

fn table(id_value: &str, columns: Vec<Column>, share: u32) -> Table {
    Table::new(id_value.to_string(), columns, "|".to_string(), share)
}

fn long(size: u8) -> Column {
    Column::new(ColumnTypes::LONG, size, 0).unwrap()
}

fn string(size: u8) -> Column {
    Column::new(ColumnTypes::STRING, size, 0).unwrap()
}

#[test]
fn shares_that_fall_short_are_refused_with_their_sum() {
    let tables = vec![
        table("A", vec![long(5)], 400_000),
        table("B", vec![long(5)], 300_000),
        table("C", vec![long(5)], 290_000),
    ];
    assert_eq!(
        ExportFile::new(tables, 1000).err(),
        Some(ExportFileError::SumPercentSizeIncorrect { sum_percent_size: 990_000 })
    );
}

#[test]
fn shares_that_make_the_whole_are_accepted() {
    let tables = vec![
        table("A", vec![long(5)], 400_000),
        table("B", vec![long(5)], 300_000),
        table("C", vec![long(5)], 300_000),
    ];
    let file = ExportFile::new(tables, 1000).unwrap();
    assert_eq!(file.file_size_bytes(), 1000);
    assert_eq!(file.tables().len(), 3);
    assert_eq!(file.tables()[1].percent_size(), 300_000);
}

#[test]
fn shares_that_exceed_the_whole_are_refused_with_their_sum() {
    let tables = vec![
        table("A", vec![long(5)], 600_000),
        table("B", vec![long(5)], 400_001),
    ];
    assert_eq!(
        ExportFile::new(tables, 1000).err(),
        Some(ExportFileError::SumPercentSizeIncorrect { sum_percent_size: 1_000_001 })
    );
    let tables = vec![
        table("A", vec![long(5)], u32::MAX),
        table("B", vec![long(5)], u32::MAX),
    ];
    assert_eq!(
        ExportFile::new(tables, 1000).err(),
        Some(ExportFileError::SumPercentSizeIncorrect { sum_percent_size: 8_589_934_590 })
    );
}

#[test]
fn no_tables_make_no_whole() {
    assert_eq!(
        ExportFile::new(Vec::new(), 1000).err(),
        Some(ExportFileError::SumPercentSizeIncorrect { sum_percent_size: 0 })
    );
}

#[test]
fn single_table_file_end_to_end() {
    let tables = vec![table("X", vec![string(5)], WHOLE_SHARE)];
    assert_eq!(tables[0].row_size_bytes(), 6);
    assert_eq!(share_of_file(100, tables[0].percent_size()), 100);
    let file = ExportFile::new(tables, 100).unwrap();
    let text = file.generate_export_file().unwrap();
    assert_eq!(text.lines().count(), 16);
    assert_eq!(text.matches('\n').count(), 16);
    for line in text.lines() {
        let chars: Vec<char> = line.chars().collect();
        assert_eq!(chars.len(), 9);
        assert_eq!(&chars[..3], &['X', '|', '"']);
        assert!(chars[3..8].iter().all(|c| c.is_ascii_alphanumeric()));
        assert_eq!(chars[8], '"');
    }
}

#[test]
fn blocks_come_in_declared_order() {
    let tables = vec![
        table("A", vec![long(9)], 400_000),
        table("B", vec![long(9)], 300_000),
        table("C", vec![long(9)], 300_000),
    ];
    let file = ExportFile::new(tables, 10_000).unwrap();
    for _ in 0..5 {
        let text = file.generate_export_file().unwrap();
        let ids: Vec<char> = text.lines().map(|line| line.chars().next().unwrap()).collect();
        assert_eq!(ids.len(), 400 + 300 + 300);
        assert!(ids[..400].iter().all(|id| *id == 'A'));
        assert!(ids[400..700].iter().all(|id| *id == 'B'));
        assert!(ids[700..].iter().all(|id| *id == 'C'));
        assert!(text.lines().all(|line| line.len() == 11 && line.as_bytes()[1] == b'|'));
    }
}

#[test]
fn file_fails_where_a_table_fails() {
    let tables = vec![
        table("A", vec![long(9)], 500_000),
        table("B", vec![long(0)], 500_000),
    ];
    let file = ExportFile::new(tables, 1000).unwrap();
    assert_eq!(
        file.generate_export_file(),
        Err(NumberGeneratorError::SizeTooLarge { size: 0 })
    );
}

#[test]
fn file_fails_with_the_error_of_a_failing_table() {
    let tables = vec![
        table("A", vec![long(25)], 500_000),
        table("B", vec![Column::new(ColumnTypes::DOUBLE, 3, 4).unwrap()], 500_000),
    ];
    let file = ExportFile::new(tables, 1000).unwrap();
    let error = file.generate_export_file().unwrap_err();
    assert!(
        error == NumberGeneratorError::SizeTooLarge { size: 25 }
            || error == NumberGeneratorError::ExponentTooLarge { size: 3, exponent: 4 }
    );
}

#[test]
fn file_without_rows_is_empty() {
    let tables = vec![
        table("A", vec![long(25)], 500_000),
        table("B", vec![long(9)], 500_000),
    ];
    let file = ExportFile::new(tables, 10).unwrap();
    assert_eq!(file.generate_export_file(), Ok(String::new()));
}
