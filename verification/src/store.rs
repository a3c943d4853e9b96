//! The conversation with the store. The library asks with a [`Statement`];
//! whoever holds the connection pool runs it and answers with a [`Reply`].
//! An operation is a function of the replies received so far, and says with
//! a [`Step`] what comes next.

use crate::errors::{ErrorKind, RepositoryError, RepositoryErrorView};
use crate::models::{
    NewNode, NewNodeView, NewTree, NewTreeView, NewUser, NewUserView, Node, NodeView, Tree,
    TreeView, User, UserTree, UserView,
};
use vstd::prelude::*;

verus! {

/// What the store is asked to do.
#[derive(Debug, PartialEq, Eq)]
pub enum Statement {
    /// Open a transaction on the connection in use.
    Begin,
    /// Make the open transaction permanent.
    Commit,
    /// Undo the open transaction.
    Rollback,
    /// Insert a user and return the row, with its identifier and timestamps.
    InsertUser(NewUser),
    /// Insert a node and return the row.
    InsertNode(NewNode),
    /// Insert a tree and return the row.
    InsertTree(NewTree),
    /// The user with this identifier.
    UserById(i32),
    /// The user with this email address.
    UserByEmail(String),
    /// The grants of this user.
    GrantsOfUser(i32),
    /// The tree with this identifier.
    TreeById(i32),
    /// The tree whose root is this node.
    TreeByRoot(i32),
    /// The trees whose identifier is one of these.
    TreesByIds(Vec<i32>),
    /// The node with this identifier.
    NodeById(i32),
    /// The nodes whose parent is this node.
    NodesByParent(i32),
    /// The nodes whose identifier is one of these.
    NodesByIds(Vec<i32>),
}

pub enum StatementView {
    Begin,
    Commit,
    Rollback,
    InsertUser(NewUserView),
    InsertNode(NewNodeView),
    InsertTree(NewTreeView),
    UserById(i32),
    UserByEmail(Seq<char>),
    GrantsOfUser(i32),
    TreeById(i32),
    TreeByRoot(i32),
    TreesByIds(Seq<i32>),
    NodeById(i32),
    NodesByParent(i32),
    NodesByIds(Seq<i32>),
}

/// What came of a statement.
#[derive(Debug, PartialEq, Eq)]
pub enum Reply {
    /// The pool handed out no connection; the statement did not run.
    NoConnection(String),
    /// The store reported a failure.
    Failed(String),
    /// A statement that returns no rows has run.
    Done,
    Users(Vec<User>),
    Grants(Vec<UserTree>),
    Trees(Vec<Tree>),
    Nodes(Vec<Node>),
}

pub enum ReplyView {
    NoConnection(Seq<char>),
    Failed(Seq<char>),
    Done,
    Users(Seq<UserView>),
    Grants(Seq<UserTree>),
    Trees(Seq<TreeView>),
    Nodes(Seq<NodeView>),
}

/// What an operation does next.
#[derive(Debug, PartialEq, Eq)]
pub enum Step<T, E> {
    /// Run this statement and come back with its reply added to the others.
    Ask(Statement),
    /// Have the batch loader fetch the node with this identifier, and come
    /// back once it has.
    Load(i32),
    /// The operation is over, with this result.
    Done(Result<T, E>),
}

pub enum StepView<T, E> {
    Ask(StatementView),
    Load(i32),
    Done(Result<T, E>),
}

impl DeepView for Statement {
    type V = StatementView;

    open spec fn deep_view(&self) -> StatementView {
        match self {
            Statement::Begin => StatementView::Begin,
            Statement::Commit => StatementView::Commit,
            Statement::Rollback => StatementView::Rollback,
            Statement::InsertUser(row) => StatementView::InsertUser(row.deep_view()),
            Statement::InsertNode(row) => StatementView::InsertNode(row.deep_view()),
            Statement::InsertTree(row) => StatementView::InsertTree(row.deep_view()),
            Statement::UserById(id) => StatementView::UserById(*id),
            Statement::UserByEmail(email) => StatementView::UserByEmail(email@),
            Statement::GrantsOfUser(id) => StatementView::GrantsOfUser(*id),
            Statement::TreeById(id) => StatementView::TreeById(*id),
            Statement::TreeByRoot(id) => StatementView::TreeByRoot(*id),
            Statement::TreesByIds(ids) => StatementView::TreesByIds(ids@),
            Statement::NodeById(id) => StatementView::NodeById(*id),
            Statement::NodesByParent(id) => StatementView::NodesByParent(*id),
            Statement::NodesByIds(ids) => StatementView::NodesByIds(ids@),
        }
    }
}

impl DeepView for Reply {
    type V = ReplyView;

    open spec fn deep_view(&self) -> ReplyView {
        match self {
            Reply::NoConnection(text) => ReplyView::NoConnection(text@),
            Reply::Failed(text) => ReplyView::Failed(text@),
            Reply::Done => ReplyView::Done,
            Reply::Users(rows) => ReplyView::Users(rows.deep_view()),
            Reply::Grants(rows) => ReplyView::Grants(rows@),
            Reply::Trees(rows) => ReplyView::Trees(rows.deep_view()),
            Reply::Nodes(rows) => ReplyView::Nodes(rows.deep_view()),
        }
    }
}

/// The result of an operation, as contracts speak of it.
pub open spec fn result_view<T: DeepView, E: DeepView>(r: Result<T, E>) -> Result<T::V, E::V> {
    match r {
        Ok(value) => Ok(value.deep_view()),
        Err(e) => Err(e.deep_view()),
    }
}

impl<T: DeepView, E: DeepView> DeepView for Step<T, E> {
    type V = StepView<T::V, E::V>;

    open spec fn deep_view(&self) -> StepView<T::V, E::V> {
        match self {
            Step::Ask(statement) => StepView::Ask(statement.deep_view()),
            Step::Load(id) => StepView::Load(*id),
            Step::Done(result) => StepView::Done(result_view(*result)),
        }
    }
}

/// The first of `rows` that is `wanted`.
pub open spec fn first_where<R>(rows: Seq<R>, wanted: spec_fn(R) -> bool) -> Option<R>
    decreases rows.len(),
{
    if rows.len() == 0 {
        None
    } else if wanted(rows[0]) {
        Some(rows[0])
    } else {
        first_where(rows.drop_first(), wanted)
    }
}

/// `first_where` finds the row at `at` when that row is wanted and none
/// before it is.
pub proof fn lemma_first_where_found<R>(rows: Seq<R>, wanted: spec_fn(R) -> bool, at: int)
    requires
        0 <= at < rows.len(),
        wanted(rows[at]),
        forall|i: int| 0 <= i < at ==> !wanted(rows[i]),
    ensures
        first_where(rows, wanted) == Some(rows[at]),
    decreases at,
{
    if at > 0 {
        lemma_first_where_found(rows.drop_first(), wanted, at - 1);
    }
}

/// `first_where` finds nothing when no row is wanted.
pub proof fn lemma_first_where_none<R>(rows: Seq<R>, wanted: spec_fn(R) -> bool)
    requires
        forall|i: int| 0 <= i < rows.len() ==> !wanted(rows[i]),
    ensures
        first_where(rows, wanted) is None,
    decreases rows.len(),
{
    if rows.len() > 0 {
        lemma_first_where_none(rows.drop_first(), wanted);
    }
}

/// What `first_where` finds is one of the rows, is wanted, and comes before
/// every other wanted row.
pub proof fn lemma_first_where_is_first<R>(rows: Seq<R>, wanted: spec_fn(R) -> bool)
    ensures
        first_where(rows, wanted) matches Some(row) ==> wanted(row) && exists|at: int|
            0 <= at < rows.len() && rows[at] == row && forall|i: int|
                0 <= i < at ==> !wanted(#[trigger] rows[i]),
        first_where(rows, wanted) is None ==> forall|i: int|
            0 <= i < rows.len() ==> !wanted(#[trigger] rows[i]),
    decreases rows.len(),
{
    if rows.len() == 0 {
    } else if wanted(rows[0]) {
        assert(rows[0] == rows[0] && forall|i: int| 0 <= i < 0 ==> !wanted(#[trigger] rows[i]));
    } else {
        let rest = rows.drop_first();
        lemma_first_where_is_first(rest, wanted);
        if first_where(rest, wanted) is Some {
            let row = first_where(rest, wanted)->0;
            let at = choose|at: int|
                0 <= at < rest.len() && rest[at] == row && forall|i: int|
                    0 <= i < at ==> !wanted(#[trigger] rest[i]);
            assert forall|i: int| 0 <= i < at + 1 implies !wanted(#[trigger] rows[i]) by {
                if i > 0 {
                    assert(rows[i] == rest[i - 1]);
                }
            }
            assert(rows[at + 1] == row);
        } else {
            assert forall|i: int| 0 <= i < rows.len() implies !wanted(#[trigger] rows[i]) by {
                if i > 0 {
                    assert(rows[i] == rest[i - 1]);
                }
            }
        }
    }
}

/// What the pool's refusal is called in every message.
pub open spec fn no_connection_text() -> Seq<char> {
    "Error getting connection pool: "@
}

/// What a reply of the wrong shape is called.
pub open spec fn unexpected_text() -> Seq<char> {
    "unexpected reply"@
}

/// What a lookup that matched no row is called.
pub open spec fn no_row_text() -> Seq<char> {
    "NotFound"@
}

/// The failure that `reply` stands for when it does not hold the rows an
/// operation waits for. A failure of the store is of the kind `kind`, and
/// its message begins with `prefix`.
pub open spec fn refusal(reply: ReplyView, kind: ErrorKind, prefix: Seq<char>)
    -> RepositoryErrorView {
    match reply {
        ReplyView::NoConnection(text) => RepositoryErrorView {
            kind: ErrorKind::Connection,
            message: no_connection_text() + text,
        },
        ReplyView::Failed(text) => RepositoryErrorView { kind, message: prefix + text },
        _ => RepositoryErrorView { kind, message: prefix + unexpected_text() },
    }
}

impl Reply {
    /// The failure that this reply stands for when it does not hold the rows
    /// an operation waits for.
    pub fn refusal(&self, kind: ErrorKind, prefix: &str) -> (e: RepositoryError)
        ensures
            e.deep_view() == refusal(self.deep_view(), kind, prefix@),
    {
        match self {
            Reply::NoConnection(text) => RepositoryError::new(
                ErrorKind::Connection,
                "Error getting connection pool: ",
                text.as_str(),
            ),
            Reply::Failed(text) => RepositoryError::new(kind, prefix, text.as_str()),
            _ => RepositoryError::new(kind, prefix, "unexpected reply"),
        }
    }
}

} // verus!
