//! The repository: what each operation on users, trees and nodes asks of the
//! store, and what it makes of the replies.
//!
//! Every operation takes the replies received so far, oldest first. It never
//! trusts the store to have filtered: it picks the rows it asked for out of
//! whatever came back.

use crate::errors::{ErrorKind, RepositoryError, RepositoryErrorView};
use crate::models::{
    NewNode, NewNodeView, NewTree, NewTreeView, NewUser, NewUserView, Node, NodeView, Tree,
    TreeView, User, UserTree, UserView,
};
use crate::store::{
    first_where, lemma_first_where_found, lemma_first_where_none, no_connection_text,
    no_row_text, refusal, Reply, ReplyView, Statement, StatementView, Step, StepView,
};
use vstd::prelude::*;
use vstd::string::StringExecFns;

verus! {

pub open spec fn user_with_id(id: i32) -> spec_fn(UserView) -> bool {
    |user: UserView| user.id == id
}

pub open spec fn user_with_email(email: Seq<char>) -> spec_fn(UserView) -> bool {
    |user: UserView| user.email == email
}

pub open spec fn tree_with_id(id: i32) -> spec_fn(TreeView) -> bool {
    |tree: TreeView| tree.id == id
}

pub open spec fn tree_with_root(root: i32) -> spec_fn(TreeView) -> bool {
    |tree: TreeView| tree.node_id == root
}

pub open spec fn tree_among(ids: Seq<i32>) -> spec_fn(TreeView) -> bool {
    |tree: TreeView| ids.contains(tree.id)
}

pub open spec fn node_with_id(id: i32) -> spec_fn(NodeView) -> bool {
    |node: NodeView| node.id == id
}

pub open spec fn node_with_parent(parent: i32) -> spec_fn(NodeView) -> bool {
    |node: NodeView| node.node_id == Some(parent)
}

/// The failure of an operation that got no row where it needed one.
pub open spec fn missing(kind: ErrorKind, prefix: Seq<char>) -> RepositoryErrorView {
    RepositoryErrorView { kind, message: prefix + no_row_text() }
}

/// The row that a lookup found, or the failure of a lookup that found none,
/// whose message begins with `prefix`.
pub open spec fn one_row<R>(found: Option<R>, prefix: Seq<char>) -> Result<
    R,
    RepositoryErrorView,
> {
    match found {
        Some(row) => Ok(row),
        None => Err(missing(ErrorKind::NotFound, prefix)),
    }
}

/// The row that an insert returned, or the failure.
pub open spec fn inserted<R>(rows: Seq<R>, prefix: Seq<char>) -> Result<R, RepositoryErrorView> {
    if rows.len() > 0 {
        Ok(rows[0])
    } else {
        Err(missing(ErrorKind::Insert, prefix))
    }
}

/// The tree identifiers that the grants give `user`: each once, in the order
/// in which the grants first name them.
pub open spec fn granted_ids(grants: Seq<UserTree>, user: i32) -> Seq<i32>
    decreases grants.len(),
{
    if grants.len() == 0 {
        Seq::empty()
    } else {
        let before = granted_ids(grants.drop_last(), user);
        let grant = grants.last();
        if grant.user_id == user && !before.contains(grant.tree_id) {
            before.push(grant.tree_id)
        } else {
            before
        }
    }
}

/// One more row, seen by a filter.
pub proof fn lemma_filter_next<R>(rows: Seq<R>, wanted: spec_fn(R) -> bool, k: int)
    requires
        0 <= k < rows.len(),
    ensures
        rows.take(k + 1).filter(wanted) == if wanted(rows[k]) {
            rows.take(k).filter(wanted).push(rows[k])
        } else {
            rows.take(k).filter(wanted)
        },
{
    reveal(Seq::filter);
    assert(rows.take(k + 1).drop_last() =~= rows.take(k));
    assert(rows.take(k + 1).last() == rows[k]);
}

/// Whether `id` is one of `ids`.
pub(crate) fn contains_id(ids: &Vec<i32>, id: i32) -> (found: bool)
    ensures
        found == ids@.contains(id),
{
    let mut i: usize = 0;
    while i < ids.len()
        invariant
            i <= ids@.len(),
            forall|k: int| 0 <= k < i ==> ids@[k] != id,
        decreases ids@.len() - i,
    {
        if ids[i] == id {
            return true;
        }
        i = i + 1;
    }
    false
}

fn why_missing(kind: ErrorKind, prefix: &str) -> (e: RepositoryError)
    ensures
        e.deep_view() == missing(kind, prefix@),
{
    RepositoryError::new(kind, prefix, "NotFound")
}

fn first_user_with_id(rows: &Vec<User>, id: i32) -> (found: Option<User>)
    ensures
        found.deep_view() == first_where(rows.deep_view(), user_with_id(id)),
{
    let mut i: usize = 0;
    while i < rows.len()
        invariant
            i <= rows@.len(),
            forall|k: int| 0 <= k < i ==> !user_with_id(id)(rows.deep_view()[k]),
        decreases rows@.len() - i,
    {
        if rows[i].id == id {
            proof {
                lemma_first_where_found(rows.deep_view(), user_with_id(id), i as int);
            }
            return Some(rows[i].clone());
        }
        i = i + 1;
    }
    proof {
        lemma_first_where_none(rows.deep_view(), user_with_id(id));
    }
    None
}

fn first_user_with_email(rows: &Vec<User>, email: &str) -> (found: Option<User>)
    ensures
        found.deep_view() == first_where(rows.deep_view(), user_with_email(email@)),
{
    let wanted = String::from_str(email);
    let mut i: usize = 0;
    while i < rows.len()
        invariant
            i <= rows@.len(),
            wanted@ == email@,
            forall|k: int| 0 <= k < i ==> !user_with_email(email@)(rows.deep_view()[k]),
        decreases rows@.len() - i,
    {
        if rows[i].email == wanted {
            proof {
                lemma_first_where_found(rows.deep_view(), user_with_email(email@), i as int);
            }
            return Some(rows[i].clone());
        }
        i = i + 1;
    }
    proof {
        lemma_first_where_none(rows.deep_view(), user_with_email(email@));
    }
    None
}

fn first_tree_with_id(rows: &Vec<Tree>, id: i32) -> (found: Option<Tree>)
    ensures
        found.deep_view() == first_where(rows.deep_view(), tree_with_id(id)),
{
    let mut i: usize = 0;
    while i < rows.len()
        invariant
            i <= rows@.len(),
            forall|k: int| 0 <= k < i ==> !tree_with_id(id)(rows.deep_view()[k]),
        decreases rows@.len() - i,
    {
        if rows[i].id == id {
            proof {
                lemma_first_where_found(rows.deep_view(), tree_with_id(id), i as int);
            }
            return Some(rows[i].clone());
        }
        i = i + 1;
    }
    proof {
        lemma_first_where_none(rows.deep_view(), tree_with_id(id));
    }
    None
}

fn first_tree_with_root(rows: &Vec<Tree>, root: i32) -> (found: Option<Tree>)
    ensures
        found.deep_view() == first_where(rows.deep_view(), tree_with_root(root)),
{
    let mut i: usize = 0;
    while i < rows.len()
        invariant
            i <= rows@.len(),
            forall|k: int| 0 <= k < i ==> !tree_with_root(root)(rows.deep_view()[k]),
        decreases rows@.len() - i,
    {
        if rows[i].node_id == root {
            proof {
                lemma_first_where_found(rows.deep_view(), tree_with_root(root), i as int);
            }
            return Some(rows[i].clone());
        }
        i = i + 1;
    }
    proof {
        lemma_first_where_none(rows.deep_view(), tree_with_root(root));
    }
    None
}

/// The first of `rows` whose identifier is `id`.
pub(crate) fn first_node_with_id(rows: &Vec<Node>, id: i32) -> (found: Option<Node>)
    ensures
        found.deep_view() == first_where(rows.deep_view(), node_with_id(id)),
{
    let mut i: usize = 0;
    while i < rows.len()
        invariant
            i <= rows@.len(),
            forall|k: int| 0 <= k < i ==> !node_with_id(id)(rows.deep_view()[k]),
        decreases rows@.len() - i,
    {
        if rows[i].id == id {
            proof {
                lemma_first_where_found(rows.deep_view(), node_with_id(id), i as int);
            }
            return Some(rows[i].clone());
        }
        i = i + 1;
    }
    proof {
        lemma_first_where_none(rows.deep_view(), node_with_id(id));
    }
    None
}

fn trees_among(rows: &Vec<Tree>, ids: &Vec<i32>) -> (kept: Vec<Tree>)
    ensures
        kept.deep_view() == rows.deep_view().filter(tree_among(ids@)),
{
    let mut kept: Vec<Tree> = Vec::new();
    let mut i: usize = 0;
    assert(rows.deep_view().take(0) =~= Seq::<TreeView>::empty()) ;
    proof {
        reveal(Seq::filter);
    }
    assert(kept.deep_view() =~= rows.deep_view().take(0).filter(tree_among(ids@)));
    while i < rows.len()
        invariant
            i <= rows@.len(),
            kept.deep_view() == rows.deep_view().take(i as int).filter(tree_among(ids@)),
        decreases rows@.len() - i,
    {
        proof {
            lemma_filter_next(rows.deep_view(), tree_among(ids@), i as int);
        }
        if contains_id(ids, rows[i].id) {
            let ghost before = kept.deep_view();
            kept.push(rows[i].clone());
            assert(kept.deep_view() =~= before.push(rows.deep_view()[i as int]));
        }
        i = i + 1;
    }
    assert(rows.deep_view().take(rows@.len() as int) =~= rows.deep_view());
    kept
}

fn nodes_with_parent(rows: &Vec<Node>, parent: i32) -> (kept: Vec<Node>)
    ensures
        kept.deep_view() == rows.deep_view().filter(node_with_parent(parent)),
{
    let mut kept: Vec<Node> = Vec::new();
    let mut i: usize = 0;
    assert(rows.deep_view().take(0) =~= Seq::<NodeView>::empty());
    proof {
        reveal(Seq::filter);
    }
    assert(kept.deep_view() =~= rows.deep_view().take(0).filter(node_with_parent(parent)));
    while i < rows.len()
        invariant
            i <= rows@.len(),
            kept.deep_view() == rows.deep_view().take(i as int).filter(node_with_parent(parent)),
        decreases rows@.len() - i,
    {
        proof {
            lemma_filter_next(rows.deep_view(), node_with_parent(parent), i as int);
        }
        let keep = match rows[i].node_id {
            Some(p) => p == parent,
            None => false,
        };
        if keep {
            let ghost before = kept.deep_view();
            kept.push(rows[i].clone());
            assert(kept.deep_view() =~= before.push(rows.deep_view()[i as int]));
        }
        i = i + 1;
    }
    assert(rows.deep_view().take(rows@.len() as int) =~= rows.deep_view());
    kept
}

fn ids_granted(grants: &Vec<UserTree>, user: i32) -> (ids: Vec<i32>)
    ensures
        ids@ == granted_ids(grants@, user),
{
    let mut ids: Vec<i32> = Vec::new();
    let mut i: usize = 0;
    assert(grants@.take(0) =~= Seq::<UserTree>::empty());
    while i < grants.len()
        invariant
            i <= grants@.len(),
            ids@ == granted_ids(grants@.take(i as int), user),
        decreases grants@.len() - i,
    {
        assert(grants@.take(i + 1).drop_last() =~= grants@.take(i as int));
        if grants[i].user_id == user && !contains_id(&ids, grants[i].tree_id) {
            ids.push(grants[i].tree_id);
        }
        i = i + 1;
    }
    assert(grants@.take(grants@.len() as int) =~= grants@);
    ids
}

pub open spec fn user_not_found() -> Seq<char> {
    "User not found: "@
}

pub open spec fn tree_not_found() -> Seq<char> {
    "Tree not found: "@
}

pub open spec fn root_not_found() -> Seq<char> {
    "Tree root not found: "@
}

pub open spec fn node_not_found() -> Seq<char> {
    "Node node found: "@
}

pub open spec fn user_not_inserted() -> Seq<char> {
    "Error inserting user: "@
}

pub open spec fn tree_not_inserted() -> Seq<char> {
    "Error inserting tree: "@
}

pub open spec fn node_not_inserted() -> Seq<char> {
    "Error inserting node: "@
}

pub open spec fn trees_not_loaded() -> Seq<char> {
    "Unable to load trees: "@
}

pub open spec fn children_not_loaded() -> Seq<char> {
    "Unable to load children: "@
}

pub open spec fn tree_not_read() -> Seq<char> {
    "Error getting tree: "@
}

pub open spec fn node_not_read() -> Seq<char> {
    "Error getting node: "@
}

/// What a lookup of one user makes of the store's reply.
pub open spec fn user_in(reply: ReplyView, wanted: spec_fn(UserView) -> bool) -> Result<
    UserView,
    RepositoryErrorView,
> {
    match reply {
        ReplyView::Users(rows) => one_row(first_where(rows, wanted), user_not_found()),
        other => Err(refusal(other, ErrorKind::Query, user_not_found())),
    }
}

/// What a lookup of one tree by its identifier makes of the store's reply.
pub open spec fn tree_in(reply: ReplyView, id: i32) -> Result<TreeView, RepositoryErrorView> {
    match reply {
        ReplyView::Trees(rows) => one_row(first_where(rows, tree_with_id(id)), tree_not_found()),
        other => Err(refusal(other, ErrorKind::Query, tree_not_found())),
    }
}

/// What a lookup of one node by its identifier makes of the store's reply.
/// A failure's message begins with `prefix`.
pub open spec fn node_in(reply: ReplyView, id: i32, prefix: Seq<char>) -> Result<
    NodeView,
    RepositoryErrorView,
> {
    match reply {
        ReplyView::Nodes(rows) => one_row(first_where(rows, node_with_id(id)), prefix),
        other => Err(refusal(other, ErrorKind::Query, prefix)),
    }
}

/// The user that an insert returned.
pub open spec fn user_inserted(reply: ReplyView) -> Result<UserView, RepositoryErrorView> {
    match reply {
        ReplyView::Users(rows) => inserted(rows, user_not_inserted()),
        other => Err(refusal(other, ErrorKind::Insert, user_not_inserted())),
    }
}

/// The tree that an insert returned.
pub open spec fn tree_inserted(reply: ReplyView) -> Result<TreeView, RepositoryErrorView> {
    match reply {
        ReplyView::Trees(rows) => inserted(rows, tree_not_inserted()),
        other => Err(refusal(other, ErrorKind::Insert, tree_not_inserted())),
    }
}

/// The node that an insert returned.
pub open spec fn node_inserted(reply: ReplyView) -> Result<NodeView, RepositoryErrorView> {
    match reply {
        ReplyView::Nodes(rows) => inserted(rows, node_not_inserted()),
        other => Err(refusal(other, ErrorKind::Insert, node_not_inserted())),
    }
}

/// Making a user: one insert.
pub open spec fn user_made(new_user: NewUserView, replies: Seq<ReplyView>) -> StepView<
    UserView,
    RepositoryErrorView,
> {
    if replies.len() == 0 {
        StepView::Ask(StatementView::InsertUser(new_user))
    } else {
        StepView::Done(user_inserted(replies[0]))
    }
}

/// The user `id`: one lookup.
pub open spec fn user_by_id(id: i32, replies: Seq<ReplyView>) -> StepView<
    UserView,
    RepositoryErrorView,
> {
    if replies.len() == 0 {
        StepView::Ask(StatementView::UserById(id))
    } else {
        StepView::Done(user_in(replies[0], user_with_id(id)))
    }
}

/// The user with the address `email`: one lookup.
pub open spec fn user_by_email(email: Seq<char>, replies: Seq<ReplyView>) -> StepView<
    UserView,
    RepositoryErrorView,
> {
    if replies.len() == 0 {
        StepView::Ask(StatementView::UserByEmail(email))
    } else {
        StepView::Done(user_in(replies[0], user_with_email(email)))
    }
}

/// The trees that `user` may reach. First the user's grants are read. Where
/// they name no tree, there is nothing more to ask. Else the trees with the
/// granted identifiers are read, and of what comes back those are kept whose
/// identifier was granted.
pub open spec fn trees_of_user(user: i32, replies: Seq<ReplyView>) -> StepView<
    Seq<TreeView>,
    RepositoryErrorView,
> {
    if replies.len() == 0 {
        StepView::Ask(StatementView::GrantsOfUser(user))
    } else {
        match replies[0] {
            ReplyView::Grants(grants) => {
                let ids = granted_ids(grants, user);
                if ids.len() == 0 {
                    StepView::Done(Ok(Seq::empty()))
                } else if replies.len() == 1 {
                    StepView::Ask(StatementView::TreesByIds(ids))
                } else {
                    match replies[1] {
                        ReplyView::Trees(rows) => StepView::Done(Ok(rows.filter(tree_among(ids)))),
                        other => StepView::Done(
                            Err(refusal(other, ErrorKind::Query, trees_not_loaded())),
                        ),
                    }
                }
            },
            other => StepView::Done(Err(refusal(other, ErrorKind::Query, trees_not_loaded()))),
        }
    }
}

/// The row of a root: no title, no content, no parent.
pub open spec fn empty_root() -> NewNodeView {
    NewNodeView { title: None, content: None, node_id: None }
}

/// Making a tree called `title`, in one transaction: begin, insert the empty
/// root, insert the tree that names the root, commit. After a failed insert
/// the transaction is rolled back, and the insert's failure is the result.
pub open spec fn tree_made(title: Seq<char>, replies: Seq<ReplyView>) -> StepView<
    TreeView,
    RepositoryErrorView,
> {
    if replies.len() == 0 {
        StepView::Ask(StatementView::Begin)
    } else if !(replies[0] is Done) {
        StepView::Done(Err(refusal(replies[0], ErrorKind::Insert, tree_not_inserted())))
    } else if replies.len() == 1 {
        StepView::Ask(StatementView::InsertNode(empty_root()))
    } else {
        match node_inserted(replies[1]) {
            Err(e) => if replies.len() == 2 {
                StepView::Ask(StatementView::Rollback)
            } else {
                StepView::Done(Err(e))
            },
            Ok(root) => if replies.len() == 2 {
                StepView::Ask(
                    StatementView::InsertTree(NewTreeView { title: Some(title), node_id: root.id }),
                )
            } else {
                match tree_inserted(replies[2]) {
                    Err(e) => if replies.len() == 3 {
                        StepView::Ask(StatementView::Rollback)
                    } else {
                        StepView::Done(Err(e))
                    },
                    Ok(tree) => if replies.len() == 3 {
                        StepView::Ask(StatementView::Commit)
                    } else if replies[3] is Done {
                        StepView::Done(Ok(tree))
                    } else {
                        StepView::Done(
                            Err(refusal(replies[3], ErrorKind::Insert, tree_not_inserted())),
                        )
                    },
                }
            },
        }
    }
}

/// The tree `id`: one lookup.
pub open spec fn tree_by_id(id: i32, replies: Seq<ReplyView>) -> StepView<
    TreeView,
    RepositoryErrorView,
> {
    if replies.len() == 0 {
        StepView::Ask(StatementView::TreeById(id))
    } else {
        StepView::Done(tree_in(replies[0], id))
    }
}

/// The root of a tree, which is the node `root`: one lookup.
pub open spec fn root_of_tree(root: i32, replies: Seq<ReplyView>) -> StepView<
    NodeView,
    RepositoryErrorView,
> {
    if replies.len() == 0 {
        StepView::Ask(StatementView::NodeById(root))
    } else {
        StepView::Done(node_in(replies[0], root, root_not_found()))
    }
}

/// Making a node: one insert.
pub open spec fn node_made(new_node: NewNodeView, replies: Seq<ReplyView>) -> StepView<
    NodeView,
    RepositoryErrorView,
> {
    if replies.len() == 0 {
        StepView::Ask(StatementView::InsertNode(new_node))
    } else {
        StepView::Done(node_inserted(replies[0]))
    }
}

/// The node `id`: one lookup.
pub open spec fn node_by_id(id: i32, replies: Seq<ReplyView>) -> StepView<
    NodeView,
    RepositoryErrorView,
> {
    if replies.len() == 0 {
        StepView::Ask(StatementView::NodeById(id))
    } else {
        StepView::Done(node_in(replies[0], id, node_not_found()))
    }
}

/// The tree whose root is the node `node`, if there is one: one lookup.
pub open spec fn tree_of_node(node: i32, replies: Seq<ReplyView>) -> StepView<
    Option<TreeView>,
    RepositoryErrorView,
> {
    if replies.len() == 0 {
        StepView::Ask(StatementView::TreeByRoot(node))
    } else {
        match replies[0] {
            ReplyView::Trees(rows) => StepView::Done(Ok(first_where(rows, tree_with_root(node)))),
            other => StepView::Done(Err(refusal(other, ErrorKind::Query, tree_not_read()))),
        }
    }
}

/// The parent of a node whose parent reference is `parent`. A node without
/// one has no parent, and the store is not asked.
pub open spec fn parent_of_node(parent: Option<i32>, replies: Seq<ReplyView>) -> StepView<
    Option<NodeView>,
    RepositoryErrorView,
> {
    match parent {
        None => StepView::Done(Ok(None)),
        Some(id) => if replies.len() == 0 {
            StepView::Ask(StatementView::NodeById(id))
        } else {
            match replies[0] {
                ReplyView::Nodes(rows) => StepView::Done(
                    Ok(first_where(rows, node_with_id(id))),
                ),
                other => StepView::Done(Err(refusal(other, ErrorKind::Query, node_not_read()))),
            }
        },
    }
}

/// The children of the node `node`: one lookup, of which the nodes are kept
/// whose parent is `node`.
pub open spec fn children_of_node(node: i32, replies: Seq<ReplyView>) -> StepView<
    Seq<NodeView>,
    RepositoryErrorView,
> {
    if replies.len() == 0 {
        StepView::Ask(StatementView::NodesByParent(node))
    } else {
        match replies[0] {
            ReplyView::Nodes(rows) => StepView::Done(Ok(rows.filter(node_with_parent(node)))),
            other => StepView::Done(Err(refusal(other, ErrorKind::Query, children_not_loaded()))),
        }
    }
}

fn user_from(reply: &Reply) -> (r: Result<User, RepositoryError>)
    ensures
        crate::store::result_view(r) == user_inserted(reply.deep_view()),
{
    match reply {
        Reply::Users(rows) => {
            if rows.len() > 0 {
                Ok(rows[0].clone())
            } else {
                Err(why_missing(ErrorKind::Insert, "Error inserting user: "))
            }
        },
        other => Err(other.refusal(ErrorKind::Insert, "Error inserting user: ")),
    }
}

fn tree_from(reply: &Reply) -> (r: Result<Tree, RepositoryError>)
    ensures
        crate::store::result_view(r) == tree_inserted(reply.deep_view()),
{
    match reply {
        Reply::Trees(rows) => {
            if rows.len() > 0 {
                Ok(rows[0].clone())
            } else {
                Err(why_missing(ErrorKind::Insert, "Error inserting tree: "))
            }
        },
        other => Err(other.refusal(ErrorKind::Insert, "Error inserting tree: ")),
    }
}

fn node_from(reply: &Reply) -> (r: Result<Node, RepositoryError>)
    ensures
        crate::store::result_view(r) == node_inserted(reply.deep_view()),
{
    match reply {
        Reply::Nodes(rows) => {
            if rows.len() > 0 {
                Ok(rows[0].clone())
            } else {
                Err(why_missing(ErrorKind::Insert, "Error inserting node: "))
            }
        },
        other => Err(other.refusal(ErrorKind::Insert, "Error inserting node: ")),
    }
}

fn node_found(reply: &Reply, id: i32, prefix: &str) -> (r: Result<Node, RepositoryError>)
    ensures
        crate::store::result_view(r) == node_in(reply.deep_view(), id, prefix@),
{
    match reply {
        Reply::Nodes(rows) => match first_node_with_id(rows, id) {
            Some(node) => Ok(node),
            None => Err(why_missing(ErrorKind::NotFound, prefix)),
        },
        other => Err(other.refusal(ErrorKind::Query, prefix)),
    }
}

impl User {
    /// Makes a user from `new_user`.
    pub fn new(new_user: &NewUser, replies: &Vec<Reply>) -> (step: Step<User, RepositoryError>)
        ensures
            step.deep_view() == user_made(new_user.deep_view(), replies.deep_view()),
    {
        if replies.len() == 0 {
            return Step::Ask(Statement::InsertUser(new_user.clone()));
        }
        Step::Done(user_from(&replies[0]))
    }

    /// The user with the identifier `id`.
    pub fn get(id: i32, replies: &Vec<Reply>) -> (step: Step<User, RepositoryError>)
        ensures
            step.deep_view() == user_by_id(id, replies.deep_view()),
    {
        if replies.len() == 0 {
            return Step::Ask(Statement::UserById(id));
        }
        match &replies[0] {
            Reply::Users(rows) => match first_user_with_id(rows, id) {
                Some(user) => Step::Done(Ok(user)),
                None => Step::Done(Err(why_missing(ErrorKind::NotFound, "User not found: "))),
            },
            other => Step::Done(Err(other.refusal(ErrorKind::Query, "User not found: "))),
        }
    }

    /// The user with the email address `email_addr`.
    pub fn find_by_email(email_addr: &str, replies: &Vec<Reply>) -> (step: Step<
        User,
        RepositoryError,
    >)
        ensures
            step.deep_view() == user_by_email(email_addr@, replies.deep_view()),
    {
        if replies.len() == 0 {
            return Step::Ask(Statement::UserByEmail(String::from_str(email_addr)));
        }
        match &replies[0] {
            Reply::Users(rows) => match first_user_with_email(rows, email_addr) {
                Some(user) => Step::Done(Ok(user)),
                None => Step::Done(Err(why_missing(ErrorKind::NotFound, "User not found: "))),
            },
            other => Step::Done(Err(other.refusal(ErrorKind::Query, "User not found: "))),
        }
    }

    /// The trees that this user may reach.
    pub fn find_trees(&self, replies: &Vec<Reply>) -> (step: Step<Vec<Tree>, RepositoryError>)
        ensures
            step.deep_view() == trees_of_user(self.id, replies.deep_view()),
    {
        if replies.len() == 0 {
            return Step::Ask(Statement::GrantsOfUser(self.id));
        }
        match &replies[0] {
            Reply::Grants(grants) => {
                let ids = ids_granted(grants, self.id);
                if ids.len() == 0 {
                    let none: Vec<Tree> = Vec::new();
                    assert(none.deep_view() =~= Seq::<TreeView>::empty());
                    return Step::Done(Ok(none));
                }
                if replies.len() == 1 {
                    return Step::Ask(Statement::TreesByIds(ids));
                }
                match &replies[1] {
                    Reply::Trees(rows) => Step::Done(Ok(trees_among(rows, &ids))),
                    other => Step::Done(
                        Err(other.refusal(ErrorKind::Query, "Unable to load trees: ")),
                    ),
                }
            },
            other => Step::Done(Err(other.refusal(ErrorKind::Query, "Unable to load trees: "))),
        }
    }
}

impl Tree {
    /// Makes a tree called `title`, and the empty node that is its root.
    pub fn new(title: &str, replies: &Vec<Reply>) -> (step: Step<Tree, RepositoryError>)
        ensures
            step.deep_view() == tree_made(title@, replies.deep_view()),
    {
        if replies.len() == 0 {
            return Step::Ask(Statement::Begin);
        }
        match &replies[0] {
            Reply::Done => {},
            other => {
                return Step::Done(Err(other.refusal(ErrorKind::Insert, "Error inserting tree: ")));
            },
        }
        if replies.len() == 1 {
            let root = NewNode { title: None, content: None, node_id: None };
            return Step::Ask(Statement::InsertNode(root));
        }
        let root = match node_from(&replies[1]) {
            Ok(root) => root,
            Err(e) => {
                if replies.len() == 2 {
                    return Step::Ask(Statement::Rollback);
                }
                return Step::Done(Err(e));
            },
        };
        if replies.len() == 2 {
            let row = NewTree { title: Some(String::from_str(title)), node_id: root.id };
            return Step::Ask(Statement::InsertTree(row));
        }
        let tree = match tree_from(&replies[2]) {
            Ok(tree) => tree,
            Err(e) => {
                if replies.len() == 3 {
                    return Step::Ask(Statement::Rollback);
                }
                return Step::Done(Err(e));
            },
        };
        if replies.len() == 3 {
            return Step::Ask(Statement::Commit);
        }
        match &replies[3] {
            Reply::Done => Step::Done(Ok(tree)),
            other => Step::Done(Err(other.refusal(ErrorKind::Insert, "Error inserting tree: "))),
        }
    }

    /// The tree with the identifier `id`.
    pub fn get(id: i32, replies: &Vec<Reply>) -> (step: Step<Tree, RepositoryError>)
        ensures
            step.deep_view() == tree_by_id(id, replies.deep_view()),
    {
        if replies.len() == 0 {
            return Step::Ask(Statement::TreeById(id));
        }
        match &replies[0] {
            Reply::Trees(rows) => match first_tree_with_id(rows, id) {
                Some(tree) => Step::Done(Ok(tree)),
                None => Step::Done(Err(why_missing(ErrorKind::NotFound, "Tree not found: "))),
            },
            other => Step::Done(Err(other.refusal(ErrorKind::Query, "Tree not found: "))),
        }
    }

    /// The root of this tree.
    pub fn root(&self, replies: &Vec<Reply>) -> (step: Step<Node, RepositoryError>)
        ensures
            step.deep_view() == root_of_tree(self.node_id, replies.deep_view()),
    {
        if replies.len() == 0 {
            return Step::Ask(Statement::NodeById(self.node_id));
        }
        Step::Done(node_found(&replies[0], self.node_id, "Tree root not found: "))
    }
}

impl Node {
    /// Makes a node under `parent_id`, with a title and a content.
    pub fn new(parent_id: Option<i32>, title: &str, content: &str, replies: &Vec<Reply>) -> (step:
        Step<Node, RepositoryError>)
        ensures
            step.deep_view() == node_made(
                NewNodeView { title: Some(title@), content: Some(content@), node_id: parent_id },
                replies.deep_view(),
            ),
    {
        if replies.len() == 0 {
            let row = NewNode {
                title: Some(String::from_str(title)),
                content: Some(String::from_str(content)),
                node_id: parent_id,
            };
            return Step::Ask(Statement::InsertNode(row));
        }
        Step::Done(node_from(&replies[0]))
    }

    /// The node with the identifier `id`.
    pub fn get(id: i32, replies: &Vec<Reply>) -> (step: Step<Node, RepositoryError>)
        ensures
            step.deep_view() == node_by_id(id, replies.deep_view()),
    {
        if replies.len() == 0 {
            return Step::Ask(Statement::NodeById(id));
        }
        Step::Done(node_found(&replies[0], id, "Node node found: "))
    }

    /// The tree that this node is the root of, if it is one.
    pub fn tree(&self, replies: &Vec<Reply>) -> (step: Step<Option<Tree>, RepositoryError>)
        ensures
            step.deep_view() == tree_of_node(self.id, replies.deep_view()),
    {
        if replies.len() == 0 {
            return Step::Ask(Statement::TreeByRoot(self.id));
        }
        match &replies[0] {
            Reply::Trees(rows) => Step::Done(Ok(first_tree_with_root(rows, self.id))),
            other => Step::Done(Err(other.refusal(ErrorKind::Query, "Error getting tree: "))),
        }
    }

    /// The parent of this node, if it has one.
    pub fn parent(&self, replies: &Vec<Reply>) -> (step: Step<Option<Node>, RepositoryError>)
        ensures
            step.deep_view() == parent_of_node(self.node_id, replies.deep_view()),
    {
        let id = match self.node_id {
            None => {
                return Step::Done(Ok(None));
            },
            Some(id) => id,
        };
        if replies.len() == 0 {
            return Step::Ask(Statement::NodeById(id));
        }
        match &replies[0] {
            Reply::Nodes(rows) => Step::Done(Ok(first_node_with_id(rows, id))),
            other => Step::Done(Err(other.refusal(ErrorKind::Query, "Error getting node: "))),
        }
    }

    /// The children of this node.
    pub fn children(&self, replies: &Vec<Reply>) -> (step: Step<Vec<Node>, RepositoryError>)
        ensures
            step.deep_view() == children_of_node(self.id, replies.deep_view()),
    {
        if replies.len() == 0 {
            return Step::Ask(Statement::NodesByParent(self.id));
        }
        match &replies[0] {
            Reply::Nodes(rows) => Step::Done(Ok(nodes_with_parent(rows, self.id))),
            other => Step::Done(Err(other.refusal(ErrorKind::Query, "Unable to load children: "))),
        }
    }
}


/// Whether one of the grants gives `user` the tree `tree`.
pub open spec fn grants_reach(grants: Seq<UserTree>, user: i32, tree: i32) -> bool {
    exists|k: int|
        0 <= k < grants.len() && (#[trigger] grants[k]).user_id == user && grants[k].tree_id
            == tree
}

/// The granted identifiers are those of the trees that a grant gives the
/// user, each once.
pub proof fn lemma_granted_ids(grants: Seq<UserTree>, user: i32)
    ensures
        granted_ids(grants, user).no_duplicates(),
        forall|tree: i32| #[trigger]
            granted_ids(grants, user).contains(tree) <==> grants_reach(grants, user, tree),
    decreases grants.len(),
{
    let ids = granted_ids(grants, user);
    if grants.len() == 0 {
    } else {
        let rest = grants.drop_last();
        let grant = grants.last();
        let before = granted_ids(rest, user);
        lemma_granted_ids(rest, user);
        assert forall|tree: i32| #[trigger] ids.contains(tree) <==> grants_reach(
            grants,
            user,
            tree,
        ) by {
            if ids.contains(tree) {
                let j = choose|j: int| 0 <= j < ids.len() && ids[j] == tree;
                if j < before.len() {
                    assert(before[j] == tree);
                    assert(before.contains(tree));
                    assert(grants_reach(rest, user, tree));
                    let k = choose|k: int|
                        0 <= k < rest.len() && (#[trigger] rest[k]).user_id == user
                            && rest[k].tree_id == tree;
                    assert(grants[k].user_id == user && grants[k].tree_id == tree);
                } else {
                    assert(grants[grants.len() - 1].user_id == user && grants[grants.len()
                        - 1].tree_id == tree);
                }
            }
            if grants_reach(grants, user, tree) {
                let k = choose|k: int|
                    0 <= k < grants.len() && (#[trigger] grants[k]).user_id == user
                        && grants[k].tree_id == tree;
                if k < rest.len() {
                    assert(rest[k].user_id == user && rest[k].tree_id == tree);
                    assert(grants_reach(rest, user, tree));
                    assert(before.contains(tree));
                    let j = choose|j: int| 0 <= j < before.len() && before[j] == tree;
                    assert(ids[j] == tree);
                } else if before.contains(tree) {
                    let j = choose|j: int| 0 <= j < before.len() && before[j] == tree;
                    assert(ids[j] == tree);
                } else {
                    assert(ids[before.len() as int] == tree);
                }
            }
        }
    }
}

/// A filter keeps the rows that are wanted, and no others.
pub proof fn lemma_filter_keeps_the_wanted<R>(rows: Seq<R>, wanted: spec_fn(R) -> bool, row: R)
    ensures
        rows.filter(wanted).contains(row) <==> rows.contains(row) && wanted(row),
{
    if rows.filter(wanted).contains(row) {
        rows.lemma_filter_contains_rev(wanted, row);
        let j = choose|j: int| 0 <= j < rows.filter(wanted).len() && rows.filter(wanted)[j] == row;
        rows.lemma_filter_pred(wanted, j);
    }
    if rows.contains(row) && wanted(row) {
        let k = choose|k: int| 0 <= k < rows.len() && rows[k] == row;
        rows.lemma_filter_contains(wanted, k);
    }
}

/// A user's trees are exactly the granted ones. Given the user's grants and
/// the rows of trees that the store answered with, the operation ends with
/// those rows whose identifier a grant gives the user: no other row, and
/// none of them left out. Membership alone decides, so the order in which
/// either reply lists its rows plays no part.
pub proof fn lemma_trees_of_user_are_the_granted(
    user: i32,
    grants: Seq<UserTree>,
    rows: Seq<TreeView>,
)
    ensures
        trees_of_user(user, seq![ReplyView::Grants(grants), ReplyView::Trees(rows)]) matches StepView::Done(
            Ok(trees),
        ) && forall|tree: TreeView| #[trigger]
            trees.contains(tree) <==> rows.contains(tree) && grants_reach(grants, user, tree.id),
{
    let ids = granted_ids(grants, user);
    lemma_granted_ids(grants, user);
    let replies = seq![ReplyView::Grants(grants), ReplyView::Trees(rows)];
    assert(replies[0] == ReplyView::Grants(grants));
    assert(replies[1] == ReplyView::Trees(rows));
    if ids.len() == 0 {
        assert forall|tree: TreeView| !grants_reach(grants, user, tree.id) by {
            if grants_reach(grants, user, tree.id) {
                assert(ids.contains(tree.id));
            }
        }
    } else {
        assert forall|tree: TreeView| #[trigger]
            rows.filter(tree_among(ids)).contains(tree) <==> rows.contains(tree) && grants_reach(
                grants,
                user,
                tree.id,
            ) by {
            lemma_filter_keeps_the_wanted(rows, tree_among(ids), tree);
            assert(tree_among(ids)(tree) <==> ids.contains(tree.id));
        }
    }
}

/// A user's trees do not depend on the order of the rows: two pairs of
/// replies that hold the same grants and the same trees, listed in whatever
/// order, end with the same trees.
pub proof fn lemma_trees_of_user_ignore_order(
    user: i32,
    grants: Seq<UserTree>,
    rows: Seq<TreeView>,
    other_grants: Seq<UserTree>,
    other_rows: Seq<TreeView>,
)
    requires
        forall|grant: UserTree| grants.contains(grant) <==> other_grants.contains(grant),
        forall|tree: TreeView| rows.contains(tree) <==> other_rows.contains(tree),
    ensures
        trees_of_user(user, seq![ReplyView::Grants(grants), ReplyView::Trees(rows)]) matches StepView::Done(
            Ok(trees),
        ) && trees_of_user(
            user,
            seq![ReplyView::Grants(other_grants), ReplyView::Trees(other_rows)],
        ) matches StepView::Done(Ok(other_trees)) && forall|tree: TreeView|
            trees.contains(tree) <==> other_trees.contains(tree),
{
    lemma_trees_of_user_are_the_granted(user, grants, rows);
    lemma_trees_of_user_are_the_granted(user, other_grants, other_rows);
    assert forall|tree: i32| grants_reach(grants, user, tree) <==> grants_reach(
        other_grants,
        user,
        tree,
    ) by {
        if grants_reach(grants, user, tree) {
            let k = choose|k: int|
                0 <= k < grants.len() && (#[trigger] grants[k]).user_id == user
                    && grants[k].tree_id == tree;
            assert(grants.contains(grants[k]));
            assert(other_grants.contains(grants[k]));
            let j = choose|j: int| 0 <= j < other_grants.len() && other_grants[j] == grants[k];
            assert(other_grants[j].user_id == user && other_grants[j].tree_id == tree);
        }
        if grants_reach(other_grants, user, tree) {
            let k = choose|k: int|
                0 <= k < other_grants.len() && (#[trigger] other_grants[k]).user_id == user
                    && other_grants[k].tree_id == tree;
            assert(other_grants.contains(other_grants[k]));
            assert(grants.contains(other_grants[k]));
            let j = choose|j: int| 0 <= j < grants.len() && grants[j] == other_grants[k];
            assert(grants[j].user_id == user && grants[j].tree_id == tree);
        }
    }
}

/// A tree is made with a root of its own. Inside one transaction the
/// operation inserts a node without title, content or parent; then the tree,
/// under the title it was given and naming the node that the store returned;
/// and once the store has committed, the tree that the store returned is the
/// result.
pub proof fn lemma_tree_made_with_its_root(title: Seq<char>, root: NodeView, tree: TreeView)
    ensures
        tree_made(title, seq![]) == StepView::<TreeView, RepositoryErrorView>::Ask(
            StatementView::Begin,
        ),
        tree_made(title, seq![ReplyView::Done]) == StepView::<TreeView, RepositoryErrorView>::Ask(
            StatementView::InsertNode(NewNodeView { title: None, content: None, node_id: None }),
        ),
        tree_made(title, seq![ReplyView::Done, ReplyView::Nodes(seq![root])]) == StepView::<
            TreeView,
            RepositoryErrorView,
        >::Ask(
            StatementView::InsertTree(NewTreeView { title: Some(title), node_id: root.id }),
        ),
        tree_made(
            title,
            seq![ReplyView::Done, ReplyView::Nodes(seq![root]), ReplyView::Trees(seq![tree])],
        ) == StepView::<TreeView, RepositoryErrorView>::Ask(StatementView::Commit),
        tree_made(
            title,
            seq![
                ReplyView::Done,
                ReplyView::Nodes(seq![root]),
                ReplyView::Trees(seq![tree]),
                ReplyView::Done,
            ],
        ) == StepView::<TreeView, RepositoryErrorView>::Done(Ok(tree)),
{
    let one = seq![ReplyView::Done];
    let two = seq![ReplyView::Done, ReplyView::Nodes(seq![root])];
    let three = seq![ReplyView::Done, ReplyView::Nodes(seq![root]), ReplyView::Trees(seq![tree])];
    let four = seq![
        ReplyView::Done,
        ReplyView::Nodes(seq![root]),
        ReplyView::Trees(seq![tree]),
        ReplyView::Done,
    ];
    assert(one[0] is Done);
    assert(two[0] is Done && two[1] == ReplyView::Nodes(seq![root]));
    assert(three[0] is Done && three[1] == ReplyView::Nodes(seq![root]) && three[2]
        == ReplyView::Trees(seq![tree]));
    assert(four[0] is Done && four[1] == ReplyView::Nodes(seq![root]) && four[2]
        == ReplyView::Trees(seq![tree]) && four[3] is Done);
    assert(seq![root][0] == root);
    assert(seq![tree][0] == tree);
}

/// A tree is never made without its root, and never left half made. While
/// the insert of the root has not returned a row, no tree is inserted: the
/// operation asks for the transaction to be rolled back, and then ends with
/// the failure of that insert.
pub proof fn lemma_no_tree_without_root(title: Seq<char>, replies: Seq<ReplyView>)
    requires
        replies.len() >= 2,
        replies[0] is Done,
        node_inserted(replies[1]) is Err,
    ensures
        replies.len() == 2 ==> tree_made(title, replies) == StepView::<
            TreeView,
            RepositoryErrorView,
        >::Ask(StatementView::Rollback),
        replies.len() > 2 ==> tree_made(title, replies) == StepView::<
            TreeView,
            RepositoryErrorView,
        >::Done(Err(node_inserted(replies[1])->Err_0)),
{
}

/// A pool that hands out no connection ends the operation. Whatever the
/// operation, and whatever might follow, it asks nothing more: it ends with
/// a `Connection` failure that carries the pool's own words.
pub proof fn lemma_no_connection_ends_the_operation(
    replies: Seq<ReplyView>,
    id: i32,
    text: Seq<char>,
    new_user: NewUserView,
    new_node: NewNodeView,
)
    requires
        replies.len() >= 1,
        replies[0] is NoConnection,
    ensures
        ({
            let refused = RepositoryErrorView {
                kind: ErrorKind::Connection,
                message: no_connection_text() + replies[0]->NoConnection_0,
            };
            &&& user_made(new_user, replies) == StepView::<UserView, RepositoryErrorView>::Done(
                Err(refused),
            )
            &&& user_by_id(id, replies) == StepView::<UserView, RepositoryErrorView>::Done(
                Err(refused),
            )
            &&& user_by_email(text, replies) == StepView::<UserView, RepositoryErrorView>::Done(
                Err(refused),
            )
            &&& trees_of_user(id, replies) == StepView::<
                Seq<TreeView>,
                RepositoryErrorView,
            >::Done(Err(refused))
            &&& tree_made(text, replies) == StepView::<TreeView, RepositoryErrorView>::Done(
                Err(refused),
            )
            &&& tree_by_id(id, replies) == StepView::<TreeView, RepositoryErrorView>::Done(
                Err(refused),
            )
            &&& root_of_tree(id, replies) == StepView::<NodeView, RepositoryErrorView>::Done(
                Err(refused),
            )
            &&& node_made(new_node, replies) == StepView::<NodeView, RepositoryErrorView>::Done(
                Err(refused),
            )
            &&& node_by_id(id, replies) == StepView::<NodeView, RepositoryErrorView>::Done(
                Err(refused),
            )
            &&& tree_of_node(id, replies) == StepView::<
                Option<TreeView>,
                RepositoryErrorView,
            >::Done(Err(refused))
            &&& parent_of_node(Some(id), replies) == StepView::<
                Option<NodeView>,
                RepositoryErrorView,
            >::Done(Err(refused))
            &&& children_of_node(id, replies) == StepView::<
                Seq<NodeView>,
                RepositoryErrorView,
            >::Done(Err(refused))
        }),
{
}

} // verus!
