//! The fields of a node.

use crate::context::{outcome_in, BatchLoader, EntryView};
use crate::errors::{scoped, ErrorKind, FieldError, FieldErrorView};
use crate::graph::{attach, in_field};
use crate::ids::{id_text, to_text};
use crate::models::{Node, NodeView, Tree};
use crate::repository::{children_of_node, tree_of_node};
use crate::store::{Reply, Step, StepView};
use crate::time::UtcInstant;
use vstd::prelude::*;

verus! {

/// The parent of a node whose parent reference is `parent`, looked up
/// through the loader. A node without a reference has no parent, and a
/// reference that matches no row is no parent either.
pub open spec fn parent_through(entries: Seq<EntryView>, parent: Option<i32>) -> StepView<
    Option<NodeView>,
    FieldErrorView,
> {
    match parent {
        None => StepView::Done(Ok(None)),
        Some(id) => match outcome_in(entries, id) {
            None => StepView::Load(id),
            Some(Ok(node)) => StepView::Done(Ok(Some(node))),
            Some(Err(e)) => if e.kind == ErrorKind::NotFound {
                StepView::Done(Ok(None))
            } else {
                StepView::Done(Err(scoped(e, "parent"@)))
            },
        },
    }
}

/// The node's identifier, as text.
pub fn id(node: &Node) -> (text: String)
    ensures
        text@ == id_text(node.id as int),
{
    to_text(node.id)
}

pub fn title(node: &Node) -> (title: &Option<String>)
    ensures
        *title == node.title,
{
    &node.title
}

pub fn content(node: &Node) -> (content: &Option<String>)
    ensures
        *content == node.content,
{
    &node.content
}

/// The tree that the node is the root of, if it is one.
pub fn tree(node: &Node, replies: &Vec<Reply>) -> (step: Step<Option<Tree>, FieldError>)
    ensures
        step.deep_view() == in_field(tree_of_node(node.id, replies.deep_view()), "tree"@),
{
    attach(node.tree(replies), "tree")
}

/// The node's parent, looked up through the loader.
pub fn parent(node: &Node, loader: &BatchLoader) -> (step: Step<Option<Node>, FieldError>)
    ensures
        step.deep_view() == parent_through(loader.deep_view(), node.node_id),
{
    let id = match node.node_id {
        None => {
            return Step::Done(Ok(None));
        },
        Some(id) => id,
    };
    match loader.outcome(id) {
        None => Step::Load(id),
        Some(Ok(found)) => Step::Done(Ok(Some(found))),
        Some(Err(e)) => match e.kind {
            ErrorKind::NotFound => Step::Done(Ok(None)),
            _ => Step::Done(Err(e.into_field_error("parent"))),
        },
    }
}

/// The node's children.
pub fn children(node: &Node, replies: &Vec<Reply>) -> (step: Step<Vec<Node>, FieldError>)
    ensures
        step.deep_view() == in_field(children_of_node(node.id, replies.deep_view()), "children"@),
{
    attach(node.children(replies), "children")
}

/// When the node was made: the store's reading, taken as UTC.
pub fn created(node: &Node) -> (instant: UtcInstant)
    ensures
        (instant.secs as int, instant.nanos as int) == node.created.taken_as_utc(),
{
    node.created.as_utc()
}

/// When the node was last changed: the store's reading, taken as UTC.
pub fn updated(node: &Node) -> (instant: UtcInstant)
    ensures
        (instant.secs as int, instant.nanos as int) == node.updated.taken_as_utc(),
{
    node.updated.as_utc()
}

} // verus!
