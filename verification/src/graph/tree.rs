//! The fields of a tree.

use crate::context::BatchLoader;
use crate::errors::FieldError;
use crate::graph::{node_through, through_loader};
use crate::ids::{id_text, to_text};
use crate::models::{Node, Tree};
use crate::store::Step;
use crate::time::UtcInstant;
use vstd::prelude::*;

verus! {

/// The tree's identifier, as text.
pub fn id(tree: &Tree) -> (text: String)
    ensures
        text@ == id_text(tree.id as int),
{
    to_text(tree.id)
}

pub fn title(tree: &Tree) -> (title: &Option<String>)
    ensures
        *title == tree.title,
{
    &tree.title
}

/// The tree's root, looked up through the loader.
pub fn root(tree: &Tree, loader: &BatchLoader) -> (step: Step<Node, FieldError>)
    ensures
        step.deep_view() == node_through(loader.deep_view(), tree.node_id, "root"@),
{
    through_loader(loader, tree.node_id, "root")
}

/// When the tree was made: the store's reading, taken as UTC.
pub fn created(tree: &Tree) -> (instant: UtcInstant)
    ensures
        (instant.secs as int, instant.nanos as int) == tree.created.taken_as_utc(),
{
    tree.created.as_utc()
}

/// When the tree was last changed: the store's reading, taken as UTC.
pub fn updated(tree: &Tree) -> (instant: UtcInstant)
    ensures
        (instant.secs as int, instant.nanos as int) == tree.updated.taken_as_utc(),
{
    tree.updated.as_utc()
}

} // verus!
