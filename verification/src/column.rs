//! Column descriptors: a semantic type, a rendered width and, for decimal
//! values, a count of fractional digits.

use vstd::prelude::*;

verus! {

/// The closed set of semantic types a column can have.
#[derive(Debug, Clone, Copy, PartialEq, Eq, Structural)]
pub enum ColumnTypes {
    STRING,
    LONG,
    DOUBLE,
    DATE,
}

/// Why a column descriptor could not be built.
#[derive(Debug, Clone, Copy, PartialEq, Eq, Structural)]
pub enum ColumnError {
    /// A fractional-digit count was given for a type other than `DOUBLE`.
    IncorrectExponent { column_type: ColumnTypes },
    /// A `DOUBLE` column was given no fractional digits.
    ExponentIsZero,
}

/// A fractional-digit count fits a type exactly when it is nonzero for
/// `DOUBLE` and zero for every other type.
pub open spec fn exponent_fits(column_type: ColumnTypes, exponent: u8) -> bool {
    (column_type == ColumnTypes::DOUBLE) <==> (exponent != 0)
}

/// One column of a table: its semantic type, the width of a rendered value
/// and the number of fractional digits.
#[derive(Debug, Clone, Copy, PartialEq, Eq, Structural)]
pub struct Column {
    column_type: ColumnTypes,
    size: u8,
    exponent: u8,
}

impl Column {
    #[verifier::type_invariant]
    spec fn well_formed(self) -> bool {
        exponent_fits(self.column_type, self.exponent)
    }

    /// The semantic type, as a specification value.
    pub closed spec fn spec_column_type(&self) -> ColumnTypes {
        self.column_type
    }

    /// The declared width, as a specification value.
    pub closed spec fn spec_size(&self) -> u8 {
        self.size
    }

    /// The number of fractional digits, as a specification value.
    pub closed spec fn spec_exponent(&self) -> u8 {
        self.exponent
    }

    /// Builds a descriptor, rejecting a fractional-digit count that does not
    /// fit the type. The width is not constrained here.
    pub fn new(column_type: ColumnTypes, size: u8, exponent: u8) -> (result: Result<
        Column,
        ColumnError,
    >)
        ensures
            match result {
                Ok(column) => {
                    &&& exponent_fits(column_type, exponent)
                    &&& column.column_type() == column_type
                    &&& column.size() == size
                    &&& column.exponent() == exponent
                },
                Err(ColumnError::IncorrectExponent { column_type: reported }) => {
                    &&& column_type != ColumnTypes::DOUBLE
                    &&& exponent != 0
                    &&& reported == column_type
                },
                Err(ColumnError::ExponentIsZero) => {
                    &&& column_type == ColumnTypes::DOUBLE
                    &&& exponent == 0
                },
            },
    {
        if column_type != ColumnTypes::DOUBLE && exponent != 0 {
            return Err(ColumnError::IncorrectExponent { column_type });
        }
        if column_type == ColumnTypes::DOUBLE && exponent == 0 {
            return Err(ColumnError::ExponentIsZero);
        }
        Ok(Column { column_type, size, exponent })
    }

    /// The semantic type.
    #[verifier::when_used_as_spec(spec_column_type)]
    pub fn column_type(&self) -> (column_type: ColumnTypes)
        ensures
            column_type == self.spec_column_type(),
    {
        self.column_type
    }

    /// The declared width of a rendered value.
    #[verifier::when_used_as_spec(spec_size)]
    pub fn size(&self) -> (size: u8)
        ensures
            size == self.spec_size(),
    {
        self.size
    }

    /// The number of fractional digits. Every descriptor that exists was
    /// built with a count that fits its type.
    #[verifier::when_used_as_spec(spec_exponent)]
    pub fn exponent(&self) -> (exponent: u8)
        ensures
            exponent == self.spec_exponent(),
            exponent_fits(self.column_type(), exponent),
    {
        proof {
            use_type_invariant(self);
        }
        self.exponent
    }
}

} // verus!
