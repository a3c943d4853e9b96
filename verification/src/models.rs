//! The rows of the store: users, trees, the grants that give a user a tree,
//! and nodes.

use crate::time::Timestamp;
use vstd::prelude::*;

verus! {

/// A user of the system.
#[derive(Debug, PartialEq, Eq)]
pub struct User {
    pub id: i32,
    pub nickname: Option<String>,
    pub email: String,
    pub created: Timestamp,
    pub last_login: Option<Timestamp>,
}

/// What a caller supplies to have a user made.
#[derive(Debug, PartialEq, Eq)]
pub struct NewUser {
    pub nickname: Option<String>,
    pub email: String,
}

/// A tree of nodes. `node_id` names its root.
#[derive(Debug, PartialEq, Eq)]
pub struct Tree {
    pub id: i32,
    pub title: Option<String>,
    pub node_id: i32,
    pub created: Timestamp,
    pub updated: Timestamp,
}

/// The row to insert for a new tree.
#[derive(Debug, PartialEq, Eq)]
pub struct NewTree {
    pub title: Option<String>,
    pub node_id: i32,
}

/// A grant: the user `user_id` may reach the tree `tree_id`.
#[derive(Clone, Copy, Debug, PartialEq, Eq)]
pub struct UserTree {
    pub id: i32,
    pub user_id: i32,
    pub tree_id: i32,
}

/// A node. `node_id` names its parent; a root has none.
#[derive(Debug, PartialEq, Eq)]
pub struct Node {
    pub id: i32,
    pub title: Option<String>,
    pub content: Option<String>,
    pub node_id: Option<i32>,
    pub created: Timestamp,
    pub updated: Timestamp,
}

/// The row to insert for a new node.
#[derive(Debug, PartialEq, Eq)]
pub struct NewNode {
    pub title: Option<String>,
    pub content: Option<String>,
    pub node_id: Option<i32>,
}

pub struct UserView {
    pub id: i32,
    pub nickname: Option<Seq<char>>,
    pub email: Seq<char>,
    pub created: Timestamp,
    pub last_login: Option<Timestamp>,
}

pub struct NewUserView {
    pub nickname: Option<Seq<char>>,
    pub email: Seq<char>,
}

pub struct TreeView {
    pub id: i32,
    pub title: Option<Seq<char>>,
    pub node_id: i32,
    pub created: Timestamp,
    pub updated: Timestamp,
}

pub struct NewTreeView {
    pub title: Option<Seq<char>>,
    pub node_id: i32,
}

pub struct NodeView {
    pub id: i32,
    pub title: Option<Seq<char>>,
    pub content: Option<Seq<char>>,
    pub node_id: Option<i32>,
    pub created: Timestamp,
    pub updated: Timestamp,
}

pub struct NewNodeView {
    pub title: Option<Seq<char>>,
    pub content: Option<Seq<char>>,
    pub node_id: Option<i32>,
}

impl DeepView for User {
    type V = UserView;

    open spec fn deep_view(&self) -> UserView {
        UserView {
            id: self.id,
            nickname: self.nickname.deep_view(),
            email: self.email@,
            created: self.created,
            last_login: self.last_login,
        }
    }
}

impl DeepView for NewUser {
    type V = NewUserView;

    open spec fn deep_view(&self) -> NewUserView {
        NewUserView { nickname: self.nickname.deep_view(), email: self.email@ }
    }
}

impl DeepView for Tree {
    type V = TreeView;

    open spec fn deep_view(&self) -> TreeView {
        TreeView {
            id: self.id,
            title: self.title.deep_view(),
            node_id: self.node_id,
            created: self.created,
            updated: self.updated,
        }
    }
}

impl DeepView for NewTree {
    type V = NewTreeView;

    open spec fn deep_view(&self) -> NewTreeView {
        NewTreeView { title: self.title.deep_view(), node_id: self.node_id }
    }
}

impl DeepView for UserTree {
    type V = UserTree;

    open spec fn deep_view(&self) -> UserTree {
        *self
    }
}

impl DeepView for Node {
    type V = NodeView;

    open spec fn deep_view(&self) -> NodeView {
        NodeView {
            id: self.id,
            title: self.title.deep_view(),
            content: self.content.deep_view(),
            node_id: self.node_id,
            created: self.created,
            updated: self.updated,
        }
    }
}

impl DeepView for NewNode {
    type V = NewNodeView;

    open spec fn deep_view(&self) -> NewNodeView {
        NewNodeView {
            title: self.title.deep_view(),
            content: self.content.deep_view(),
            node_id: self.node_id,
        }
    }
}

impl Clone for User {
    fn clone(&self) -> (copy: Self)
        ensures
            copy == *self,
    {
        User {
            id: self.id,
            nickname: self.nickname.clone(),
            email: self.email.clone(),
            created: self.created,
            last_login: self.last_login,
        }
    }
}

impl Clone for NewUser {
    fn clone(&self) -> (copy: Self)
        ensures
            copy == *self,
    {
        NewUser { nickname: self.nickname.clone(), email: self.email.clone() }
    }
}

impl Clone for Tree {
    fn clone(&self) -> (copy: Self)
        ensures
            copy == *self,
    {
        Tree {
            id: self.id,
            title: self.title.clone(),
            node_id: self.node_id,
            created: self.created,
            updated: self.updated,
        }
    }
}

impl Clone for NewTree {
    fn clone(&self) -> (copy: Self)
        ensures
            copy == *self,
    {
        NewTree { title: self.title.clone(), node_id: self.node_id }
    }
}

impl Clone for Node {
    fn clone(&self) -> (copy: Self)
        ensures
            copy == *self,
    {
        Node {
            id: self.id,
            title: self.title.clone(),
            content: self.content.clone(),
            node_id: self.node_id,
            created: self.created,
            updated: self.updated,
        }
    }
}

impl Clone for NewNode {
    fn clone(&self) -> (copy: Self)
        ensures
            copy == *self,
    {
        NewNode {
            title: self.title.clone(),
            content: self.content.clone(),
            node_id: self.node_id,
        }
    }
}

} // verus!
