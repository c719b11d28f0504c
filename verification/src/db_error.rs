//! Errors of the local store, its schema registry and the sync layer.

use vstd::prelude::*;
use crate::template::TemplateError;

verus! {

/// What can go wrong in the schema registry, the SQL planners and the sync
/// configuration. Failures of the SQLite and PostgreSQL drivers are reported
/// by the code that talks to them.
#[derive(Debug, Clone, PartialEq)]
pub enum DbError {
    Template(TemplateError),
    Schema(String),
    TableNotFound(String),
    ColumnNotFound(String),
    TypeMismatch { expected: String, actual: String },
    ConstraintViolation(String),
    Sync(String),
    Connection(String),
    UserNotFound(u32),
    DuplicateUser(u32),
}

pub type DbResult<T> = Result<T, DbError>;

} // verus!
