//! The data of a copy job: endpoints, table jobs, inspected schemas, task
//! snapshots and errors, each with the mathematical view its contracts use.

use vstd::prelude::*;

verus! {

/// The view of an optional text.
pub open spec fn opt_text(o: Option<String>) -> Option<Seq<char>> {
    match o {
        Some(s) => Some(s@),
        None => None,
    }
}

/// A copy of an optional text.
pub fn clone_opt_text(o: &Option<String>) -> (r: Option<String>)
    ensures
        r == *o,
{
    match o {
        Some(s) => Some(s.clone()),
        None => None,
    }
}

/// How to reach an SSH host that forwards a local port to a database.
#[derive(Clone, Debug, PartialEq, Eq)]
pub struct SSHConfig {
    pub host: String,
    pub port: u16,
    pub username: String,
    pub auth_type: String,
    pub private_key_path: Option<String>,
    pub password: Option<String>,
}

/// One database endpoint, optionally behind an SSH tunnel.
#[derive(Clone, Debug, PartialEq, Eq)]
pub struct DatabaseConfig {
    pub host: String,
    pub port: u16,
    pub database: String,
    pub username: String,
    pub password: String,
    pub ssl_mode: String,
    pub ssh_config: Option<SSHConfig>,
}

/// The kind of a masking rule.
#[derive(Clone, Copy, Debug, PartialEq, Eq, Structural)]
pub enum MaskRuleType {
    Hash,
    Fixed,
    Pattern,
}

impl Default for MaskRuleType {
    fn default() -> (r: Self)
        ensures
            r == MaskRuleType::Hash,
    {
        MaskRuleType::Hash
    }
}

/// A masking rule: its kind and, for `Fixed` and `Pattern`, the replacement
/// or the template.
#[derive(Clone, Debug, Default, PartialEq, Eq)]
pub struct MaskRule {
    pub rule_type: MaskRuleType,
    pub pattern: Option<String>,
}

/// What contracts read of a masking rule.
pub struct MaskRuleView {
    pub rule_type: MaskRuleType,
    pub pattern: Option<Seq<char>>,
}

impl View for MaskRule {
    type V = MaskRuleView;

    open spec fn view(&self) -> MaskRuleView {
        MaskRuleView { rule_type: self.rule_type, pattern: opt_text(self.pattern) }
    }
}

/// One column of a table job.
#[derive(Clone, Debug, PartialEq, Eq)]
pub struct ColumnConfig {
    pub name: String,
    pub mask_rule: Option<MaskRule>,
    pub ignore: bool,
}

/// One table of a copy job.
#[derive(Clone, Debug, PartialEq, Eq)]
pub struct TableConfig {
    pub name: String,
    pub columns: Vec<ColumnConfig>,
    pub structure_only: bool,
    pub ignore_foreign_keys: bool,
    pub ignore: bool,
}

impl TableConfig {
    /// The names of the listed columns, in order.
    pub open spec fn column_names(&self) -> Seq<Seq<char>> {
        Seq::new(self.columns@.len(), |i: int| self.columns@[i].name@)
    }
}

/// What contracts read of a column of a table job.
pub struct ColumnConfigView {
    pub name: Seq<char>,
    pub mask_rule: Option<MaskRuleView>,
    pub ignore: bool,
}

impl View for ColumnConfig {
    type V = ColumnConfigView;

    open spec fn view(&self) -> ColumnConfigView {
        ColumnConfigView {
            name: self.name@,
            mask_rule: match self.mask_rule {
                Some(r) => Some(r@),
                None => None,
            },
            ignore: self.ignore,
        }
    }
}

impl ColumnConfig {
    /// A copy of the column's settings.
    pub fn duplicate(&self) -> (r: ColumnConfig)
        ensures
            r@ == self@,
    {
        ColumnConfig {
            name: self.name.clone(),
            mask_rule: match &self.mask_rule {
                Some(rule) => Some(
                    MaskRule { rule_type: rule.rule_type, pattern: clone_opt_text(&rule.pattern) },
                ),
                None => None,
            },
            ignore: self.ignore,
        }
    }
}

/// What contracts read of a table job.
pub struct TableConfigView {
    pub name: Seq<char>,
    pub columns: Seq<ColumnConfigView>,
    pub structure_only: bool,
    pub ignore_foreign_keys: bool,
    pub ignore: bool,
}

impl View for TableConfig {
    type V = TableConfigView;

    open spec fn view(&self) -> TableConfigView {
        TableConfigView {
            name: self.name@,
            columns: Seq::new(self.columns@.len(), |i: int| self.columns@[i]@),
            structure_only: self.structure_only,
            ignore_foreign_keys: self.ignore_foreign_keys,
            ignore: self.ignore,
        }
    }
}

/// A copy job: two endpoints and the tables to move.
#[derive(Clone, Debug, PartialEq, Eq)]
pub struct Config {
    pub name: String,
    pub source_db: DatabaseConfig,
    pub target_db: DatabaseConfig,
    pub tables: Vec<TableConfig>,
}

/// How far a task has come.
#[derive(Clone, Debug, PartialEq, Eq)]
pub struct Progress {
    pub current: usize,
    pub total: usize,
    pub table_name: String,
}

/// What contracts read of a progress record.
pub struct ProgressView {
    pub current: nat,
    pub total: nat,
    pub table_name: Seq<char>,
}

impl View for Progress {
    type V = ProgressView;

    open spec fn view(&self) -> ProgressView {
        ProgressView {
            current: self.current as nat,
            total: self.total as nat,
            table_name: self.table_name@,
        }
    }
}

/// The life cycle of a task.
#[derive(Clone, Copy, Debug, PartialEq, Eq, Structural)]
pub enum TaskState {
    Pending,
    Running,
    Completed,
    Failed,
}

/// A snapshot of one task.
#[derive(Clone, Debug, PartialEq, Eq)]
pub struct TaskStatus {
    pub id: String,
    pub status: TaskState,
    pub start_time: Option<String>,
    pub end_time: Option<String>,
    pub message: Option<String>,
    pub progress: Option<Progress>,
}

/// What contracts read of a task snapshot.
pub struct TaskStatusView {
    pub id: Seq<char>,
    pub status: TaskState,
    pub start_time: Option<Seq<char>>,
    pub end_time: Option<Seq<char>>,
    pub message: Option<Seq<char>>,
    pub progress: Option<ProgressView>,
}

impl View for TaskStatus {
    type V = TaskStatusView;

    open spec fn view(&self) -> TaskStatusView {
        TaskStatusView {
            id: self.id@,
            status: self.status,
            start_time: opt_text(self.start_time),
            end_time: opt_text(self.end_time),
            message: opt_text(self.message),
            progress: match self.progress {
                Some(p) => Some(p@),
                None => None,
            },
        }
    }
}

/// What went wrong, by the stage that failed.
#[derive(Clone, Debug, PartialEq, Eq)]
pub enum DbError {
    Connection(String),
    Query(String),
    SSH(String),
}

/// What contracts read of an error.
pub enum DbErrorView {
    Connection(Seq<char>),
    Query(Seq<char>),
    SSH(Seq<char>),
}

impl View for DbError {
    type V = DbErrorView;

    open spec fn view(&self) -> DbErrorView {
        match self {
            DbError::Connection(m) => DbErrorView::Connection(m@),
            DbError::Query(m) => DbErrorView::Query(m@),
            DbError::SSH(m) => DbErrorView::SSH(m@),
        }
    }
}

impl DbErrorView {
    /// The text shown for the error: the stage, then the cause.
    pub open spec fn describe(self) -> Seq<char> {
        match self {
            DbErrorView::Connection(m) => "Connection error: "@ + m,
            DbErrorView::Query(m) => "Query error: "@ + m,
            DbErrorView::SSH(m) => "SSH error: "@ + m,
        }
    }
}

impl DbError {
    /// The text shown for the error: the stage, then the cause.
    pub fn describe(&self) -> (out: String)
        ensures
            out@ == self@.describe(),
    {
        match self {
            DbError::Connection(m) => "Connection error: ".to_owned().concat(m.as_str()),
            DbError::Query(m) => "Query error: ".to_owned().concat(m.as_str()),
            DbError::SSH(m) => "SSH error: ".to_owned().concat(m.as_str()),
        }
    }

    /// A copy of the error.
    pub fn duplicate(&self) -> (r: DbError)
        ensures
            r == *self,
    {
        match self {
            DbError::Connection(m) => DbError::Connection(m.clone()),
            DbError::Query(m) => DbError::Query(m.clone()),
            DbError::SSH(m) => DbError::SSH(m.clone()),
        }
    }
}

/// One inspected column.
#[derive(Clone, Debug, PartialEq, Eq)]
pub struct ColumnInfo {
    pub name: String,
    pub data_type: String,
    pub is_nullable: bool,
    pub column_default: Option<String>,
    pub character_maximum_length: Option<i32>,
}

/// What contracts read of an inspected column.
pub struct ColumnInfoView {
    pub name: Seq<char>,
    pub data_type: Seq<char>,
    pub is_nullable: bool,
    pub column_default: Option<Seq<char>>,
    pub character_maximum_length: Option<i32>,
}

impl View for ColumnInfo {
    type V = ColumnInfoView;

    open spec fn view(&self) -> ColumnInfoView {
        ColumnInfoView {
            name: self.name@,
            data_type: self.data_type@,
            is_nullable: self.is_nullable,
            column_default: opt_text(self.column_default),
            character_maximum_length: self.character_maximum_length,
        }
    }
}

/// The inspected definition of one table.
#[derive(Clone, Debug, PartialEq, Eq)]
pub struct TableInfo {
    pub name: String,
    pub columns: Vec<ColumnInfo>,
    pub indexes: Vec<String>,
    pub constraints: Vec<String>,
}

/// What contracts read of an inspected table.
pub struct TableInfoView {
    pub name: Seq<char>,
    pub columns: Seq<ColumnInfoView>,
    pub indexes: Seq<Seq<char>>,
    pub constraints: Seq<Seq<char>>,
}

impl View for TableInfo {
    type V = TableInfoView;

    open spec fn view(&self) -> TableInfoView {
        TableInfoView {
            name: self.name@,
            columns: Seq::new(self.columns@.len(), |i: int| self.columns@[i]@),
            indexes: crate::text::texts(self.indexes@),
            constraints: crate::text::texts(self.constraints@),
        }
    }
}

/// The figures shown for a job before it starts.
#[derive(Clone, Debug, PartialEq, Eq)]
pub struct ConfigSummary {
    pub source_db: String,
    pub target_db: String,
    pub table_count: usize,
    pub total_columns: usize,
    pub has_source_ssh: bool,
    pub has_target_ssh: bool,
}

} // verus!
