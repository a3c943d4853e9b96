//! What can go wrong, in two shapes: as the repository reports it, and as a
//! field of the graph reports it.

use vstd::prelude::*;
use vstd::string::StringExecFns;

verus! {

/// The kinds of failure.
#[derive(Clone, Copy, Debug, PartialEq, Eq, Structural)]
pub enum ErrorKind {
    /// The pool handed out no connection.
    Connection,
    /// A lookup matched no row.
    NotFound,
    /// The store could not answer a read.
    Query,
    /// The store refused a write.
    Insert,
    /// An argument of the caller is malformed.
    InvalidArgument,
    /// The operation is declared and not built.
    Unimplemented,
}

/// A failure of a repository operation.
#[derive(Debug, PartialEq, Eq)]
pub struct RepositoryError {
    pub kind: ErrorKind,
    pub message: String,
}

pub struct RepositoryErrorView {
    pub kind: ErrorKind,
    pub message: Seq<char>,
}

/// A failure attached to one field of a response. `scope` says which: the
/// field's name, or the argument that the field was asked with.
#[derive(Debug, PartialEq, Eq)]
pub struct FieldError {
    pub kind: ErrorKind,
    pub message: String,
    pub scope: String,
}

pub struct FieldErrorView {
    pub kind: ErrorKind,
    pub message: Seq<char>,
    pub scope: Seq<char>,
}

impl DeepView for RepositoryError {
    type V = RepositoryErrorView;

    open spec fn deep_view(&self) -> RepositoryErrorView {
        RepositoryErrorView { kind: self.kind, message: self.message@ }
    }
}

impl DeepView for FieldError {
    type V = FieldErrorView;

    open spec fn deep_view(&self) -> FieldErrorView {
        FieldErrorView { kind: self.kind, message: self.message@, scope: self.scope@ }
    }
}

impl Clone for RepositoryError {
    fn clone(&self) -> (copy: Self)
        ensures
            copy == *self,
    {
        RepositoryError { kind: self.kind, message: self.message.clone() }
    }
}

impl Clone for FieldError {
    fn clone(&self) -> (copy: Self)
        ensures
            copy == *self,
    {
        FieldError {
            kind: self.kind,
            message: self.message.clone(),
            scope: self.scope.clone(),
        }
    }
}

/// The field error that a repository error becomes under `scope`.
pub open spec fn scoped(e: RepositoryErrorView, scope: Seq<char>) -> FieldErrorView {
    FieldErrorView { kind: e.kind, message: e.message, scope }
}

impl RepositoryError {
    /// The failure `kind`, described by `prefix` followed by `detail`.
    pub fn new(kind: ErrorKind, prefix: &str, detail: &str) -> (e: RepositoryError)
        ensures
            e.deep_view() == (RepositoryErrorView { kind, message: prefix@ + detail@ }),
    {
        let mut message = String::from_str(prefix);
        message.append(detail);
        RepositoryError { kind, message }
    }

    /// The same failure, attached to the field that `scope` names.
    pub fn into_field_error(self, scope: &str) -> (e: FieldError)
        ensures
            e.deep_view() == scoped(self.deep_view(), scope@),
    {
        FieldError { kind: self.kind, message: self.message, scope: String::from_str(scope) }
    }
}

impl FieldError {
    /// The failure `kind` of the field `scope`, described by `prefix` followed
    /// by `detail`.
    pub fn new(kind: ErrorKind, prefix: &str, detail: &str, scope: &str) -> (e: FieldError)
        ensures
            e.deep_view() == (FieldErrorView {
                kind,
                message: prefix@ + detail@,
                scope: scope@,
            }),
    {
        let mut message = String::from_str(prefix);
        message.append(detail);
        FieldError { kind, message, scope: String::from_str(scope) }
    }
}

} // verus!
