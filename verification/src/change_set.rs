//! State changes: one parameterised mutation of the read model each.
//!
//! A change names its statement out of a closed set, carries the values
//! to bind in placeholder order, and holds the statement text with
//! placeholders in place of the values.

use vstd::prelude::*;

verus! {

/// The tables of the read model.
#[derive(Clone, Copy, Debug, PartialEq, Eq, Structural)]
pub enum Table {
    Project,
    Round,
}

/// The columns of the read model.
#[derive(Clone, Copy, Debug, PartialEq, Eq, Structural)]
pub enum Column {
    ChainId,
    ProjectId,
    RoundAddress,
    CreatedAtBlock,
    Metadata,
    Owners,
}

impl Table {
    /// The table's identifier in the store.
    pub open spec fn spec_name(self) -> Seq<char> {
        match self {
            Table::Project => "project"@,
            Table::Round => "round"@,
        }
    }

    /// The table's identifier in the store.
    pub fn name(&self) -> (name: &'static str)
        ensures
            name@ == self.spec_name(),
    {
        match self {
            Table::Project => "project",
            Table::Round => "round",
        }
    }
}

impl Column {
    /// The column's identifier in the store.
    pub open spec fn spec_name(self) -> Seq<char> {
        match self {
            Column::ChainId => "chain_id"@,
            Column::ProjectId => "project_id"@,
            Column::RoundAddress => "round_address"@,
            Column::CreatedAtBlock => "created_at_block"@,
            Column::Metadata => "metadata"@,
            Column::Owners => "owners"@,
        }
    }

    /// The column's identifier in the store.
    pub fn name(&self) -> (name: &'static str)
        ensures
            name@ == self.spec_name(),
    {
        match self {
            Column::ChainId => "chain_id",
            Column::ProjectId => "project_id",
            Column::RoundAddress => "round_address",
            Column::CreatedAtBlock => "created_at_block",
            Column::Metadata => "metadata",
            Column::Owners => "owners",
        }
    }
}

/// The statements a change can be: a closed set, each with a fixed
/// text and a fixed list of parameters.
#[derive(Clone, Copy, Debug, PartialEq, Eq, Structural)]
pub enum ChangeKind {
    /// Insert `(chain, project, block)` into `project`.
    InsertProject,
    /// Set `project.metadata` to a document for the key `(chain, project)`.
    SetProjectMetadata,
    /// Add one owner to `project.owners` for the key `(chain, project)`.
    AddProjectOwner,
    /// Take one owner out of `project.owners` for the key `(chain, project)`.
    RemoveProjectOwner,
    /// Insert `(chain, round, block)` into `round`.
    InsertRound,
}

impl ChangeKind {
    /// The one table that a change of this kind touches.
    pub open spec fn spec_table(self) -> Table {
        match self {
            ChangeKind::InsertRound => Table::Round,
            _ => Table::Project,
        }
    }

    /// The one table that a change of this kind touches.
    pub fn table(&self) -> (table: Table)
        ensures
            table == self.spec_table(),
    {
        match self {
            ChangeKind::InsertRound => Table::Round,
            _ => Table::Project,
        }
    }
}

/// A value bound to a placeholder.
#[derive(Clone, Debug, PartialEq, Eq)]
pub enum SqlValue {
    /// A 32-bit integer.
    Int(i32),
    /// Plain text.
    Text(String),
    /// Text that is a JSON document, for a JSON-capable column.
    Json(String),
}

/// Mathematical counterpart of [`SqlValue`].
pub enum SqlValueView {
    Int(int),
    Text(Seq<char>),
    Json(Seq<char>),
}

impl View for SqlValue {
    type V = SqlValueView;

    open spec fn view(&self) -> SqlValueView {
        match *self {
            SqlValue::Int(n) => SqlValueView::Int(n as int),
            SqlValue::Text(s) => SqlValueView::Text(s@),
            SqlValue::Json(s) => SqlValueView::Json(s@),
        }
    }
}

/// One atomic mutation of the read model: a statement and its bound
/// parameters.
#[derive(Clone, Debug, PartialEq, Eq)]
pub struct ChangeSet {
    /// Which statement this is.
    pub kind: ChangeKind,
    /// The values to bind, in placeholder order.
    pub params: Vec<SqlValue>,
    /// The statement with `$1`, `$2`, ... in place of the values.
    pub statement: String,
    /// The statement as the query builder writes it out with its values
    /// as quoted literals, to show or to log; what the store is given
    /// is `statement` with `params`. An owners update has none: its
    /// values are only ever bound.
    pub sql: Option<String>,
}

/// Mathematical counterpart of [`ChangeSet`].
pub struct ChangeSetView {
    pub kind: ChangeKind,
    pub params: Seq<SqlValueView>,
    pub statement: Seq<char>,
    pub sql: Option<Seq<char>>,
}

impl View for ChangeSet {
    type V = ChangeSetView;

    open spec fn view(&self) -> ChangeSetView {
        ChangeSetView {
            kind: self.kind,
            params: Seq::new(self.params@.len(), |i: int| self.params@[i]@),
            statement: self.statement@,
            sql: match self.sql {
                Some(text) => Some(text@),
                None => None,
            },
        }
    }
}

} // verus!
