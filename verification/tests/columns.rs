use ucsvgen::{Column, ColumnError, ColumnTypes};

#[test]
fn column_tests() {
    let column = Column::new(ColumnTypes::STRING, 10, 0).unwrap();
    assert_eq!(
        (column.column_type(), column.size(), column.exponent()),
        (ColumnTypes::STRING, 10, 0)
    );
}

#[test]
fn column_keeps_what_it_was_built_with() {
    let column = Column::new(ColumnTypes::DOUBLE, 12, 3).unwrap();
    assert_eq!(column.column_type(), ColumnTypes::DOUBLE);
    assert_eq!(column.size(), 12);
    assert_eq!(column.exponent(), 3);
    assert_eq!(column, Column::new(ColumnTypes::DOUBLE, 12, 3).unwrap());
    assert_ne!(column, Column::new(ColumnTypes::DOUBLE, 12, 4).unwrap());
}

#[test]
fn column_rejects_exponent_on_other_types() {
    for column_type in [ColumnTypes::STRING, ColumnTypes::LONG, ColumnTypes::DATE] {
        for exponent in [1u8, 2, 255] {
            assert_eq!(
                Column::new(column_type, 10, exponent),
                Err(ColumnError::IncorrectExponent { column_type })
            );
        }
    }
}

#[test]
fn column_rejects_double_without_exponent() {
    for size in [0u8, 1, 10, 255] {
        assert_eq!(
            Column::new(ColumnTypes::DOUBLE, size, 0),
            Err(ColumnError::ExponentIsZero)
        );
    }
}

#[test]
fn column_accepts_every_fitting_combination() {
    for size in [0u8, 1, 19, 20, 25, 255] {
        for column_type in [ColumnTypes::STRING, ColumnTypes::LONG, ColumnTypes::DATE] {
            let column = Column::new(column_type, size, 0).unwrap();
            assert_eq!(column.exponent(), 0);
        }
        for exponent in [1u8, 2, 200, 255] {
            let column = Column::new(ColumnTypes::DOUBLE, size, exponent).unwrap();
            assert!(column.exponent() > 0);
        }
    }
}

#[test]
fn column_does_not_judge_the_size() {
    assert!(Column::new(ColumnTypes::LONG, 25, 0).is_ok());
    assert!(Column::new(ColumnTypes::LONG, 0, 0).is_ok());
    assert!(Column::new(ColumnTypes::DOUBLE, 3, 9).is_ok());
}
