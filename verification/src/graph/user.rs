//! The fields of a user.

use crate::errors::FieldError;
use crate::graph::{attach, in_field};
use crate::ids::{id_text, to_text};
use crate::models::{Tree, User};
use crate::repository::trees_of_user;
use crate::store::{Reply, Step};
use crate::time::UtcInstant;
use vstd::prelude::*;

verus! {

/// The user's identifier, as text.
pub fn id(user: &User) -> (text: String)
    ensures
        text@ == id_text(user.id as int),
{
    to_text(user.id)
}

pub fn nickname(user: &User) -> (nickname: &Option<String>)
    ensures
        *nickname == user.nickname,
{
    &user.nickname
}

pub fn email(user: &User) -> (email: &String)
    ensures
        *email == user.email,
{
    &user.email
}

/// When the user was made: the store's reading, taken as UTC.
pub fn created(user: &User) -> (instant: UtcInstant)
    ensures
        (instant.secs as int, instant.nanos as int) == user.created.taken_as_utc(),
{
    user.created.as_utc()
}

/// When the user last logged in, if ever: the store's reading, taken as UTC.
pub fn last_login(user: &User) -> (instant: Option<UtcInstant>)
    ensures
        instant is Some <==> user.last_login is Some,
        instant matches Some(utc) ==> (utc.secs as int, utc.nanos as int)
            == user.last_login->0.taken_as_utc(),
{
    match &user.last_login {
        Some(reading) => Some(reading.as_utc()),
        None => None,
    }
}

/// The trees that the user may reach.
pub fn trees(user: &User, replies: &Vec<Reply>) -> (step: Step<Vec<Tree>, FieldError>)
    ensures
        step.deep_view() == in_field(trees_of_user(user.id, replies.deep_view()), "trees"@),
{
    attach(user.find_trees(replies), "trees")
}

} // verus!
