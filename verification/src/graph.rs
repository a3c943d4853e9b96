//! The graph: the two roots, and what each of their fields resolves to.
//!
//! A field that needs the store is a function of the replies received so
//! far; a field that looks a node up by its identifier is a function of the
//! request's batch loader. The fields of a user, a tree and a node are in the
//! modules below.

pub mod node;
pub mod tree;
pub mod user;

use crate::context::{
    batch_of, delivered, entry_ids, entry_with_id, lemma_batch_members,
    lemma_delivery_settles_each_key, lemma_loaded_ids, loaded, outcome_in, BatchLoader, EntryView,
};
use crate::errors::{scoped, ErrorKind, FieldError, FieldErrorView, RepositoryError,
    RepositoryErrorView};
use crate::ids::{id_error_text, id_text, parse, parse_id, to_text, IdError};
use crate::models::{NewNodeView, NewUser, Node, NodeView, Tree, TreeView, User, UserView};
use crate::repository::{
    missing, node_made, node_not_found, node_with_id, tree_by_id, tree_made, user_by_email,
    user_made,
};
use crate::store::{
    first_where, lemma_first_where_found, lemma_first_where_is_first, Reply, ReplyView, Step,
    StepView,
};
use vstd::prelude::*;

verus! {

/// The root of the queries.
pub struct Query;

/// The root of the mutations.
pub struct Mutation;

/// What anyone may see of a user: no timestamps.
#[derive(Debug, PartialEq, Eq)]
pub struct UserInfo {
    pub id: String,
    pub nickname: Option<String>,
    pub email: String,
}

pub struct UserInfoView {
    pub id: Seq<char>,
    pub nickname: Option<Seq<char>>,
    pub email: Seq<char>,
}

impl DeepView for UserInfo {
    type V = UserInfoView;

    open spec fn deep_view(&self) -> UserInfoView {
        UserInfoView { id: self.id@, nickname: self.nickname.deep_view(), email: self.email@ }
    }
}

/// The public face of `user`: its identifier as text, its nickname and its
/// address.
pub open spec fn user_info_of(user: UserView) -> UserInfoView {
    UserInfoView { id: id_text(user.id as int), nickname: user.nickname, email: user.email }
}

/// Two texts are known to be equal by their characters only, so what the
/// conversion gives is stated of its view, in the contract of `from` itself.
impl vstd::std_specs::convert::FromSpecImpl<User> for UserInfo {
    open spec fn obeys_from_spec() -> bool {
        false
    }

    open spec fn from_spec(user: User) -> UserInfo {
        arbitrary()
    }
}

impl From<User> for UserInfo {
    fn from(db_user: User) -> (info: UserInfo)
        ensures
            info.deep_view() == user_info_of(db_user.deep_view()),
    {
        UserInfo { id: to_text(db_user.id), nickname: db_user.nickname, email: db_user.email }
    }
}

pub open spec fn invalid_id_text() -> Seq<char> {
    "Invalid ID: "@
}

pub open spec fn not_built_text() -> Seq<char> {
    "not yet implemented: "@
}

/// The failure of a field that was asked with the malformed identifier `id`.
pub open spec fn invalid_id(e: IdError, id: Seq<char>) -> FieldErrorView {
    FieldErrorView {
        kind: ErrorKind::InvalidArgument,
        message: invalid_id_text() + id_error_text(e),
        scope: id,
    }
}

/// The failure of the field `field`, which is declared and not built.
pub open spec fn not_built(field: Seq<char>) -> FieldErrorView {
    FieldErrorView {
        kind: ErrorKind::Unimplemented,
        message: not_built_text() + field,
        scope: field,
    }
}

/// A step of the repository, taken by a field: a failure is attached to
/// `scope`, everything else stays.
pub open spec fn in_field<T>(step: StepView<T, RepositoryErrorView>, scope: Seq<char>)
    -> StepView<T, FieldErrorView> {
    match step {
        StepView::Ask(statement) => StepView::Ask(statement),
        StepView::Load(id) => StepView::Load(id),
        StepView::Done(Ok(value)) => StepView::Done(Ok(value)),
        StepView::Done(Err(e)) => StepView::Done(Err(scoped(e, scope))),
    }
}

/// A node looked up through the loader: while the loader holds no outcome
/// for `id` the field asks for the load; then the outcome is the field's.
pub open spec fn node_through(entries: Seq<EntryView>, id: i32, scope: Seq<char>) -> StepView<
    NodeView,
    FieldErrorView,
> {
    match outcome_in(entries, id) {
        None => StepView::Load(id),
        Some(Ok(node)) => StepView::Done(Ok(node)),
        Some(Err(e)) => StepView::Done(Err(scoped(e, scope))),
    }
}

/// `user(email)`.
pub open spec fn user_field(email: Seq<char>, replies: Seq<ReplyView>) -> StepView<
    UserView,
    FieldErrorView,
> {
    in_field(user_by_email(email, replies), email)
}

/// `userInfo(email)`: the user's public face.
pub open spec fn user_info_field(email: Seq<char>, replies: Seq<ReplyView>) -> StepView<
    UserInfoView,
    FieldErrorView,
> {
    match user_field(email, replies) {
        StepView::Ask(statement) => StepView::Ask(statement),
        StepView::Load(id) => StepView::Load(id),
        StepView::Done(Ok(user)) => StepView::Done(Ok(user_info_of(user))),
        StepView::Done(Err(e)) => StepView::Done(Err(e)),
    }
}

/// `tree(id)`: a malformed identifier fails at once; a well-formed one is
/// looked up.
pub open spec fn tree_field(id: Seq<char>, replies: Seq<ReplyView>) -> StepView<
    TreeView,
    FieldErrorView,
> {
    match parse_id(id) {
        Err(e) => StepView::Done(Err(invalid_id(e, id))),
        Ok(number) => in_field(tree_by_id(number as i32, replies), id),
    }
}

/// `node(id)`: a malformed identifier fails at once; a well-formed one is
/// looked up through the loader.
pub open spec fn node_field(id: Seq<char>, entries: Seq<EntryView>) -> StepView<
    NodeView,
    FieldErrorView,
> {
    match parse_id(id) {
        Err(e) => StepView::Done(Err(invalid_id(e, id))),
        Ok(number) => node_through(entries, number as i32, id),
    }
}

/// `createNode(parentId, title, content)`: a malformed parent identifier
/// fails at once; else the node is made under that parent.
pub open spec fn create_node_field(
    parent_id: Seq<char>,
    title: Seq<char>,
    content: Seq<char>,
    replies: Seq<ReplyView>,
) -> StepView<NodeView, FieldErrorView> {
    match parse_id(parent_id) {
        Err(e) => StepView::Done(Err(invalid_id(e, parent_id))),
        Ok(number) => in_field(
            node_made(
                NewNodeView {
                    title: Some(title),
                    content: Some(content),
                    node_id: Some(number as i32),
                },
                replies,
            ),
            "createNode"@,
        ),
    }
}

/// Attaches a failure of the repository to the field `scope`.
pub fn attach<T: DeepView>(step: Step<T, RepositoryError>, scope: &str) -> (r: Step<
    T,
    FieldError,
>)
    ensures
        r.deep_view() == in_field(step.deep_view(), scope@),
{
    match step {
        Step::Ask(statement) => Step::Ask(statement),
        Step::Load(id) => Step::Load(id),
        Step::Done(Ok(value)) => Step::Done(Ok(value)),
        Step::Done(Err(e)) => Step::Done(Err(e.into_field_error(scope))),
    }
}

/// Looks the node `id` up through the loader, for the field `scope`.
pub fn through_loader(loader: &BatchLoader, id: i32, scope: &str) -> (step: Step<
    Node,
    FieldError,
>)
    ensures
        step.deep_view() == node_through(loader.deep_view(), id, scope@),
{
    match loader.outcome(id) {
        None => Step::Load(id),
        Some(Ok(node)) => Step::Done(Ok(node)),
        Some(Err(e)) => Step::Done(Err(e.into_field_error(scope))),
    }
}

fn malformed(e: IdError, id: &str) -> (r: FieldError)
    ensures
        r.deep_view() == invalid_id(e, id@),
{
    FieldError::new(ErrorKind::InvalidArgument, "Invalid ID: ", e.message(), id)
}

fn unbuilt(field: &str) -> (r: FieldError)
    ensures
        r.deep_view() == not_built(field@),
{
    FieldError::new(ErrorKind::Unimplemented, "not yet implemented: ", field, field)
}

impl Query {
    pub fn api_version() -> (version: &'static str)
        ensures
            version@ == "1.0"@,
    {
        "1.0"
    }

    /// The user with the address `email`.
    pub fn user(email: &str, replies: &Vec<Reply>) -> (step: Step<User, FieldError>)
        ensures
            step.deep_view() == user_field(email@, replies.deep_view()),
    {
        attach(User::find_by_email(email, replies), email)
    }

    /// The public face of the user with the address `email`.
    pub fn user_info(email: &str, replies: &Vec<Reply>) -> (step: Step<UserInfo, FieldError>)
        ensures
            step.deep_view() == user_info_field(email@, replies.deep_view()),
    {
        match Query::user(email, replies) {
            Step::Ask(statement) => Step::Ask(statement),
            Step::Load(id) => Step::Load(id),
            Step::Done(Ok(user)) => Step::Done(Ok(UserInfo::from(user))),
            Step::Done(Err(e)) => Step::Done(Err(e)),
        }
    }

    /// The tree that `id` names.
    pub fn tree(id: &str, replies: &Vec<Reply>) -> (step: Step<Tree, FieldError>)
        ensures
            step.deep_view() == tree_field(id@, replies.deep_view()),
    {
        match parse(id) {
            Err(e) => Step::Done(Err(malformed(e, id))),
            Ok(number) => attach(Tree::get(number, replies), id),
        }
    }

    /// The node that `id` names.
    pub fn node(id: &str, loader: &BatchLoader) -> (step: Step<Node, FieldError>)
        ensures
            step.deep_view() == node_field(id@, loader.deep_view()),
    {
        match parse(id) {
            Err(e) => Step::Done(Err(malformed(e, id))),
            Ok(number) => through_loader(loader, number, id),
        }
    }
}

impl Mutation {
    /// Makes a user.
    pub fn create_user(new_user: &NewUser, replies: &Vec<Reply>) -> (step: Step<User, FieldError>)
        ensures
            step.deep_view() == in_field(
                user_made(new_user.deep_view(), replies.deep_view()),
                "createUser"@,
            ),
    {
        attach(User::new(new_user, replies), "createUser")
    }

    /// Makes a tree called `title`, with its root.
    pub fn create_tree(title: &str, replies: &Vec<Reply>) -> (step: Step<Tree, FieldError>)
        ensures
            step.deep_view() == in_field(tree_made(title@, replies.deep_view()), "createTree"@),
    {
        attach(Tree::new(title, replies), "createTree")
    }

    /// Declared and not built: fails whatever it is asked with.
    pub fn share_tree(tree_id: &str, user_id: &str) -> (step: Step<Tree, FieldError>)
        ensures
            step.deep_view() == StepView::<TreeView, FieldErrorView>::Done(
                Err(not_built("shareTree"@)),
            ),
    {
        Step::Done(Err(unbuilt("shareTree")))
    }

    /// Makes a node under the node that `parent_id` names.
    pub fn create_node(parent_id: &str, title: &str, content: &str, replies: &Vec<Reply>) -> (step:
        Step<Node, FieldError>)
        ensures
            step.deep_view() == create_node_field(
                parent_id@,
                title@,
                content@,
                replies.deep_view(),
            ),
    {
        match parse(parent_id) {
            Err(e) => Step::Done(Err(malformed(e, parent_id))),
            Ok(number) => attach(Node::new(Some(number), title, content, replies), "createNode"),
        }
    }

    /// Declared and not built: fails whatever it is asked with.
    pub fn edit_node(id: &str, title: &str, content: &str) -> (step: Step<Node, FieldError>)
        ensures
            step.deep_view() == StepView::<NodeView, FieldErrorView>::Done(
                Err(not_built("editNode"@)),
            ),
    {
        Step::Done(Err(unbuilt("editNode")))
    }
}

/// A malformed identifier never reaches the store. Whatever the store or the
/// loader may hold, `tree`, `node` and `createNode` end at once with an
/// `InvalidArgument` failure that names the fault and the text; they ask for
/// no statement and for no load.
pub proof fn lemma_malformed_id_asks_nothing(
    id: Seq<char>,
    replies: Seq<ReplyView>,
    entries: Seq<EntryView>,
    title: Seq<char>,
    content: Seq<char>,
)
    requires
        parse_id(id) is Err,
    ensures
        tree_field(id, replies) == StepView::<TreeView, FieldErrorView>::Done(
            Err(invalid_id(parse_id(id)->Err_0, id)),
        ),
        node_field(id, entries) == StepView::<NodeView, FieldErrorView>::Done(
            Err(invalid_id(parse_id(id)->Err_0, id)),
        ),
        create_node_field(id, title, content, replies) == StepView::<
            NodeView,
            FieldErrorView,
        >::Done(Err(invalid_id(parse_id(id)->Err_0, id))),
        invalid_id(parse_id(id)->Err_0, id).kind == ErrorKind::InvalidArgument,
{
}

/// A well-formed identifier finds its node, or finds that there is none.
/// While the loader holds no outcome for the identifier, `node` asks for the
/// load. The load puts the identifier into the next batch. Once that batch
/// is delivered, `node` ends: with the first row that bears the identifier;
/// with a `NotFound` failure where the batch holds no such row; with the
/// failure of the batch where the batch failed.
pub proof fn lemma_node_field_finds_its_row(
    id: Seq<char>,
    entries: Seq<EntryView>,
    batch: Result<Seq<NodeView>, RepositoryErrorView>,
)
    requires
        parse_id(id) is Ok,
        entry_ids(entries).no_duplicates(),
        outcome_in(entries, parse_id(id)->Ok_0 as i32) is None,
    ensures
        ({
            let number = parse_id(id)->Ok_0 as i32;
            let asked = loaded(entries, number);
            let after = delivered(asked, batch_of(asked), batch);
            &&& node_field(id, entries) == StepView::<NodeView, FieldErrorView>::Load(number)
            &&& batch_of(asked).contains(number)
            &&& node_field(id, after) == StepView::<NodeView, FieldErrorView>::Done(
                match batch {
                    Ok(rows) => match first_where(rows, node_with_id(number)) {
                        Some(node) => Ok(node),
                        None => Err(scoped(missing(ErrorKind::NotFound, node_not_found()), id)),
                    },
                    Err(e) => Err(scoped(e, id)),
                },
            )
        }),
{
    let number = parse_id(id)->Ok_0 as i32;
    let asked = loaded(entries, number);
    lemma_loaded_ids(entries, number);
    lemma_first_where_is_first(entries, entry_with_id(number));
    if !entry_ids(entries).contains(number) {
        assert forall|i: int| 0 <= i < entries.len() implies !entry_with_id(number)(
            asked[i],
        ) by {
            assert(entry_ids(entries)[i] == entries[i].id);
        }
        lemma_first_where_found(asked, entry_with_id(number), entries.len() as int);
    }
    assert(outcome_in(asked, number) is None);
    lemma_first_where_is_first(asked, entry_with_id(number));
    if first_where(asked, entry_with_id(number)) is None {
        let k = choose|k: int| 0 <= k < entry_ids(asked).len() && entry_ids(asked)[k] == number;
        assert(entry_with_id(number)(asked[k]));
    }
    let entry = first_where(asked, entry_with_id(number))->0;
    let at = choose|at: int| 0 <= at < asked.len() && asked[at] == entry;
    assert(asked[at].id == number && asked[at].outcome is None);
    lemma_batch_members(asked, number);
    lemma_delivery_settles_each_key(asked, batch_of(asked), batch, number);
}

/// The public face of a user shows no timestamp: two users that differ in
/// nothing but the time they were made and the time they last logged in
/// have the same public face.
pub proof fn lemma_user_info_hides_timestamps(user: UserView, other: UserView)
    requires
        user.id == other.id,
        user.nickname == other.nickname,
        user.email == other.email,
    ensures
        user_info_of(user) == user_info_of(other),
{
}

} // verus!
