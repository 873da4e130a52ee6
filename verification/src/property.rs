//! The kinds of property that a simulation of the database checks, named
//! without the queries that a property of that kind carries.

use vstd::prelude::*;

verus! {

/// The kind of a property.
#[derive(Debug, Clone, Copy, PartialEq, Eq, Structural, Hash)]
pub enum PropertyDiscriminants {
    /// A row that was inserted is among the rows of a later select whose
    /// predicate matches it.
    InsertValuesSelect,
    /// The rows that an update has changed are read back with their new
    /// values.
    ReadYourUpdatesBack,
    /// A table holds what the model says it holds.
    TableHasExpectedContent,
    /// Every table holds what the model says it holds.
    AllTableHaveExpectedContent,
    /// Creating a table that exists fails.
    DoubleCreateFailure,
    /// A select returns no more rows than its limit.
    SelectLimit,
    /// Rows that were deleted are not among the rows of a later select.
    DeleteSelect,
    /// Selecting from a table that was dropped fails.
    DropSelect,
    /// A predicate selects as many rows in the result column as in the where
    /// clause.
    SelectSelectOptimizer,
    /// A predicate is true, false or null on every row.
    WhereTrueFalseNull,
    /// A union of two selects has as many rows as the two together.
    UnionAllPreservesCardinality,
    /// No data is lost when a query does not wait for the sync to disk.
    FsyncNoWait,
    /// A query runs with a fault injected.
    FaultyQuery,
    /// The foreign-key action on delete does what it is declared to do.
    ForeignKeyDeleteAction,
    /// The foreign-key action on update does what it is declared to do.
    ForeignKeyUpdateAction,
    /// Inserting a child row without a parent fails.
    ForeignKeyInvalidInsert,
    /// Nothing is checked: the property stands for its queries alone.
    Queries,
}

/// Whether a property's queries are run inside a transaction of their own.
#[derive(Debug, Clone, Copy)]
pub struct InteractiveQueryInfo {
    pub start_with_immediate: bool,
    pub end_with_commit: bool,
}

impl PropertyDiscriminants {
    /// The name of this kind: the name of its variant, letter for letter.
    pub open spec fn spec_name(self) -> Seq<char> {
        match self {
            PropertyDiscriminants::InsertValuesSelect => "InsertValuesSelect"@,
            PropertyDiscriminants::ReadYourUpdatesBack => "ReadYourUpdatesBack"@,
            PropertyDiscriminants::TableHasExpectedContent => "TableHasExpectedContent"@,
            PropertyDiscriminants::AllTableHaveExpectedContent => "AllTableHaveExpectedContent"@,
            PropertyDiscriminants::DoubleCreateFailure => "DoubleCreateFailure"@,
            PropertyDiscriminants::SelectLimit => "SelectLimit"@,
            PropertyDiscriminants::DeleteSelect => "DeleteSelect"@,
            PropertyDiscriminants::DropSelect => "DropSelect"@,
            PropertyDiscriminants::SelectSelectOptimizer => "SelectSelectOptimizer"@,
            PropertyDiscriminants::WhereTrueFalseNull => "WhereTrueFalseNull"@,
            PropertyDiscriminants::UnionAllPreservesCardinality => "UnionAllPreservesCardinality"@,
            PropertyDiscriminants::FsyncNoWait => "FsyncNoWait"@,
            PropertyDiscriminants::FaultyQuery => "FaultyQuery"@,
            PropertyDiscriminants::ForeignKeyDeleteAction => "ForeignKeyDeleteAction"@,
            PropertyDiscriminants::ForeignKeyUpdateAction => "ForeignKeyUpdateAction"@,
            PropertyDiscriminants::ForeignKeyInvalidInsert => "ForeignKeyInvalidInsert"@,
            PropertyDiscriminants::Queries => "Queries"@,
        }
    }

    /// Whether a property of this kind compares tables with the model.
    pub open spec fn spec_check_tables(self) -> bool {
        self == PropertyDiscriminants::AllTableHaveExpectedContent || self
            == PropertyDiscriminants::TableHasExpectedContent
    }

    /// The name of this kind.
    pub fn name(&self) -> (r: &'static str)
        ensures
            r@ == self.spec_name(),
    {
        match self {
            PropertyDiscriminants::InsertValuesSelect => "InsertValuesSelect",
            PropertyDiscriminants::ReadYourUpdatesBack => "ReadYourUpdatesBack",
            PropertyDiscriminants::TableHasExpectedContent => "TableHasExpectedContent",
            PropertyDiscriminants::AllTableHaveExpectedContent => "AllTableHaveExpectedContent",
            PropertyDiscriminants::DoubleCreateFailure => "DoubleCreateFailure",
            PropertyDiscriminants::SelectLimit => "SelectLimit",
            PropertyDiscriminants::DeleteSelect => "DeleteSelect",
            PropertyDiscriminants::DropSelect => "DropSelect",
            PropertyDiscriminants::SelectSelectOptimizer => "SelectSelectOptimizer",
            PropertyDiscriminants::WhereTrueFalseNull => "WhereTrueFalseNull",
            PropertyDiscriminants::UnionAllPreservesCardinality => "UnionAllPreservesCardinality",
            PropertyDiscriminants::FsyncNoWait => "FsyncNoWait",
            PropertyDiscriminants::FaultyQuery => "FaultyQuery",
            PropertyDiscriminants::ForeignKeyDeleteAction => "ForeignKeyDeleteAction",
            PropertyDiscriminants::ForeignKeyUpdateAction => "ForeignKeyUpdateAction",
            PropertyDiscriminants::ForeignKeyInvalidInsert => "ForeignKeyInvalidInsert",
            PropertyDiscriminants::Queries => "Queries",
        }
    }

    /// Whether a property of this kind compares tables with the model.
    pub fn check_tables(&self) -> (r: bool)
        ensures
            r == self.spec_check_tables(),
    {
        matches!(
            self,
            PropertyDiscriminants::AllTableHaveExpectedContent
                | PropertyDiscriminants::TableHasExpectedContent
        )
    }
}

} // verus!
