use graph_ed::errors::{ErrorKind, RepositoryError};
use graph_ed::models::{NewNode, NewTree, NewUser, Node, Tree, User, UserTree};
use graph_ed::store::{Reply, Statement, Step};
use graph_ed::time::Timestamp;

fn at(second: u32) -> Timestamp {
    Timestamp::new(735_733, second, 0).unwrap()
}

fn user(id: i32, email: &str) -> User {
    User { id, nickname: None, email: email.to_string(), created: at(1), last_login: None }
}

fn tree(id: i32, title: &str, node_id: i32) -> Tree {
    Tree { id, title: Some(title.to_string()), node_id, created: at(2), updated: at(3) }
}

fn node(id: i32, parent: Option<i32>) -> Node {
    Node {
        id,
        title: Some(format!("node {}", id)),
        content: None,
        node_id: parent,
        created: at(4),
        updated: at(5),
    }
}

fn grant(id: i32, user_id: i32, tree_id: i32) -> UserTree {
    UserTree { id, user_id, tree_id }
}

fn failure(kind: ErrorKind, message: &str) -> RepositoryError {
    RepositoryError { kind, message: message.to_string() }
}

#[test]
fn user_get_asks_for_the_user_first() {
    assert_eq!(User::get(7, &vec![]), Step::Ask(Statement::UserById(7)));
}

#[test]
fn user_get_picks_the_row_with_the_identifier() {
    let replies = vec![Reply::Users(vec![user(6, "a@x"), user(7, "b@x"), user(7, "c@x")])];
    assert_eq!(User::get(7, &replies), Step::Done(Ok(user(7, "b@x"))));
}

#[test]
fn user_get_reports_a_missing_row() {
    let replies = vec![Reply::Users(vec![user(6, "a@x")])];
    assert_eq!(
        User::get(7, &replies),
        Step::Done(Err(failure(ErrorKind::NotFound, "User not found: NotFound")))
    );
    assert_eq!(
        User::get(7, &vec![Reply::Users(vec![])]),
        Step::Done(Err(failure(ErrorKind::NotFound, "User not found: NotFound")))
    );
}

#[test]
fn user_get_reports_the_pool() {
    let replies = vec![Reply::NoConnection("timed out".to_string())];
    assert_eq!(
        User::get(7, &replies),
        Step::Done(Err(failure(
            ErrorKind::Connection,
            "Error getting connection pool: timed out"
        )))
    );
}

#[test]
fn user_get_reports_the_store() {
    let replies = vec![Reply::Failed("relation missing".to_string())];
    assert_eq!(
        User::get(7, &replies),
        Step::Done(Err(failure(ErrorKind::Query, "User not found: relation missing")))
    );
}

#[test]
fn user_get_reports_a_reply_of_the_wrong_shape() {
    let replies = vec![Reply::Nodes(vec![node(7, None)])];
    assert_eq!(
        User::get(7, &replies),
        Step::Done(Err(failure(ErrorKind::Query, "User not found: unexpected reply")))
    );
    assert_eq!(
        User::get(7, &vec![Reply::Done]),
        Step::Done(Err(failure(ErrorKind::Query, "User not found: unexpected reply")))
    );
}

#[test]
fn user_find_by_email_asks_and_picks_by_address() {
    assert_eq!(
        User::find_by_email("b@x", &vec![]),
        Step::Ask(Statement::UserByEmail("b@x".to_string()))
    );
    let replies = vec![Reply::Users(vec![user(1, "a@x"), user(2, "b@x")])];
    assert_eq!(User::find_by_email("b@x", &replies), Step::Done(Ok(user(2, "b@x"))));
    assert_eq!(
        User::find_by_email("z@x", &replies),
        Step::Done(Err(failure(ErrorKind::NotFound, "User not found: NotFound")))
    );
}

#[test]
fn user_new_inserts_what_it_was_given() {
    let new_user = NewUser { nickname: Some("bee".to_string()), email: "b@x".to_string() };
    assert_eq!(
        User::new(&new_user, &vec![]),
        Step::Ask(Statement::InsertUser(NewUser {
            nickname: Some("bee".to_string()),
            email: "b@x".to_string()
        }))
    );
    let made = User {
        id: 9,
        nickname: Some("bee".to_string()),
        email: "b@x".to_string(),
        created: at(10),
        last_login: None,
    };
    assert_eq!(User::new(&new_user, &vec![Reply::Users(vec![made.clone()])]), Step::Done(Ok(made)));
}

#[test]
fn user_new_reports_a_refused_insert() {
    let new_user = NewUser { nickname: None, email: "b@x".to_string() };
    assert_eq!(
        User::new(&new_user, &vec![Reply::Failed("duplicate key".to_string())]),
        Step::Done(Err(failure(ErrorKind::Insert, "Error inserting user: duplicate key")))
    );
    assert_eq!(
        User::new(&new_user, &vec![Reply::Users(vec![])]),
        Step::Done(Err(failure(ErrorKind::Insert, "Error inserting user: NotFound")))
    );
    assert_eq!(
        User::new(&new_user, &vec![Reply::NoConnection("down".to_string())]),
        Step::Done(Err(failure(ErrorKind::Connection, "Error getting connection pool: down")))
    );
}

#[test]
fn find_trees_reads_the_grants_first() {
    assert_eq!(user(3, "a@x").find_trees(&vec![]), Step::Ask(Statement::GrantsOfUser(3)));
}

#[test]
fn find_trees_asks_for_each_granted_tree_once() {
    let grants = vec![
        grant(1, 3, 20),
        grant(2, 4, 99),
        grant(3, 3, 10),
        grant(4, 3, 20),
        grant(5, 3, 10),
    ];
    assert_eq!(
        user(3, "a@x").find_trees(&vec![Reply::Grants(grants)]),
        Step::Ask(Statement::TreesByIds(vec![20, 10]))
    );
}

#[test]
fn find_trees_without_grants_asks_no_more() {
    assert_eq!(user(3, "a@x").find_trees(&vec![Reply::Grants(vec![])]), Step::Done(Ok(vec![])));
    assert_eq!(
        user(3, "a@x").find_trees(&vec![Reply::Grants(vec![grant(1, 4, 10)])]),
        Step::Done(Ok(vec![]))
    );
}

#[test]
fn find_trees_keeps_the_granted_trees_only() {
    let grants = vec![grant(1, 3, 20), grant(2, 3, 10), grant(3, 5, 30)];
    let rows = vec![tree(30, "c", 3), tree(10, "a", 1), tree(40, "d", 4), tree(20, "b", 2)];
    let replies = vec![Reply::Grants(grants), Reply::Trees(rows)];
    assert_eq!(
        user(3, "a@x").find_trees(&replies),
        Step::Done(Ok(vec![tree(10, "a", 1), tree(20, "b", 2)]))
    );
}

#[test]
fn find_trees_gives_the_same_trees_in_whatever_order_the_rows_come() {
    let one = vec![
        Reply::Grants(vec![grant(1, 3, 20), grant(2, 3, 10)]),
        Reply::Trees(vec![tree(10, "a", 1), tree(20, "b", 2)]),
    ];
    let other = vec![
        Reply::Grants(vec![grant(2, 3, 10), grant(1, 3, 20)]),
        Reply::Trees(vec![tree(20, "b", 2), tree(10, "a", 1)]),
    ];
    let mut first = match user(3, "a@x").find_trees(&one) {
        Step::Done(Ok(trees)) => trees,
        step => panic!("{:?}", step),
    };
    let mut second = match user(3, "a@x").find_trees(&other) {
        Step::Done(Ok(trees)) => trees,
        step => panic!("{:?}", step),
    };
    first.sort_by_key(|tree| tree.id);
    second.sort_by_key(|tree| tree.id);
    assert_eq!(first, second);
    assert_eq!(first, vec![tree(10, "a", 1), tree(20, "b", 2)]);
}

#[test]
fn find_trees_reports_failures() {
    assert_eq!(
        user(3, "a@x").find_trees(&vec![Reply::Failed("boom".to_string())]),
        Step::Done(Err(failure(ErrorKind::Query, "Unable to load trees: boom")))
    );
    let replies =
        vec![Reply::Grants(vec![grant(1, 3, 20)]), Reply::NoConnection("down".to_string())];
    assert_eq!(
        user(3, "a@x").find_trees(&replies),
        Step::Done(Err(failure(ErrorKind::Connection, "Error getting connection pool: down")))
    );
    let replies = vec![Reply::Grants(vec![grant(1, 3, 20)]), Reply::Users(vec![])];
    assert_eq!(
        user(3, "a@x").find_trees(&replies),
        Step::Done(Err(failure(ErrorKind::Query, "Unable to load trees: unexpected reply")))
    );
}

#[test]
fn tree_new_runs_in_one_transaction() {
    let root = Node { id: 71, title: None, content: None, node_id: None, created: at(1), updated: at(1) };
    let made = tree(5, "T", 71);
    let mut replies = vec![];
    assert_eq!(Tree::new("T", &replies), Step::Ask(Statement::Begin));
    replies.push(Reply::Done);
    assert_eq!(
        Tree::new("T", &replies),
        Step::Ask(Statement::InsertNode(NewNode { title: None, content: None, node_id: None }))
    );
    replies.push(Reply::Nodes(vec![root]));
    assert_eq!(
        Tree::new("T", &replies),
        Step::Ask(Statement::InsertTree(NewTree { title: Some("T".to_string()), node_id: 71 }))
    );
    replies.push(Reply::Trees(vec![made.clone()]));
    assert_eq!(Tree::new("T", &replies), Step::Ask(Statement::Commit));
    replies.push(Reply::Done);
    assert_eq!(Tree::new("T", &replies), Step::Done(Ok(made)));
}

#[test]
fn tree_new_stops_where_no_transaction_opens() {
    assert_eq!(
        Tree::new("T", &vec![Reply::NoConnection("down".to_string())]),
        Step::Done(Err(failure(ErrorKind::Connection, "Error getting connection pool: down")))
    );
    assert_eq!(
        Tree::new("T", &vec![Reply::Failed("read only".to_string())]),
        Step::Done(Err(failure(ErrorKind::Insert, "Error inserting tree: read only")))
    );
}

#[test]
fn tree_new_rolls_back_when_the_root_is_refused() {
    let mut replies = vec![Reply::Done, Reply::Failed("no space".to_string())];
    assert_eq!(Tree::new("T", &replies), Step::Ask(Statement::Rollback));
    replies.push(Reply::Done);
    assert_eq!(
        Tree::new("T", &replies),
        Step::Done(Err(failure(ErrorKind::Insert, "Error inserting node: no space")))
    );
}

#[test]
fn tree_new_rolls_back_when_the_tree_is_refused() {
    let mut replies = vec![
        Reply::Done,
        Reply::Nodes(vec![node(71, None)]),
        Reply::Failed("constraint".to_string()),
    ];
    assert_eq!(Tree::new("T", &replies), Step::Ask(Statement::Rollback));
    replies.push(Reply::Failed("gone".to_string()));
    assert_eq!(
        Tree::new("T", &replies),
        Step::Done(Err(failure(ErrorKind::Insert, "Error inserting tree: constraint")))
    );
}

#[test]
fn tree_new_reports_a_failed_commit() {
    let replies = vec![
        Reply::Done,
        Reply::Nodes(vec![node(71, None)]),
        Reply::Trees(vec![tree(5, "T", 71)]),
        Reply::Failed("serialization".to_string()),
    ];
    assert_eq!(
        Tree::new("T", &replies),
        Step::Done(Err(failure(ErrorKind::Insert, "Error inserting tree: serialization")))
    );
}

#[test]
fn tree_get_asks_and_picks_by_identifier() {
    assert_eq!(Tree::get(5, &vec![]), Step::Ask(Statement::TreeById(5)));
    let replies = vec![Reply::Trees(vec![tree(4, "a", 1), tree(5, "b", 2)])];
    assert_eq!(Tree::get(5, &replies), Step::Done(Ok(tree(5, "b", 2))));
    assert_eq!(
        Tree::get(6, &replies),
        Step::Done(Err(failure(ErrorKind::NotFound, "Tree not found: NotFound")))
    );
    assert_eq!(
        Tree::get(6, &vec![Reply::Failed("boom".to_string())]),
        Step::Done(Err(failure(ErrorKind::Query, "Tree not found: boom")))
    );
}

#[test]
fn tree_root_asks_for_the_node_it_names() {
    let t = tree(5, "b", 71);
    assert_eq!(t.root(&vec![]), Step::Ask(Statement::NodeById(71)));
    let replies = vec![Reply::Nodes(vec![node(70, None), node(71, None)])];
    assert_eq!(t.root(&replies), Step::Done(Ok(node(71, None))));
    assert_eq!(
        t.root(&vec![Reply::Nodes(vec![node(70, None)])]),
        Step::Done(Err(failure(ErrorKind::NotFound, "Tree root not found: NotFound")))
    );
    assert_eq!(
        t.root(&vec![Reply::Failed("boom".to_string())]),
        Step::Done(Err(failure(ErrorKind::Query, "Tree root not found: boom")))
    );
}

#[test]
fn node_new_inserts_title_content_and_parent() {
    assert_eq!(
        Node::new(Some(3), "t", "c", &vec![]),
        Step::Ask(Statement::InsertNode(NewNode {
            title: Some("t".to_string()),
            content: Some("c".to_string()),
            node_id: Some(3)
        }))
    );
    assert_eq!(
        Node::new(None, "", "", &vec![]),
        Step::Ask(Statement::InsertNode(NewNode {
            title: Some(String::new()),
            content: Some(String::new()),
            node_id: None
        }))
    );
    assert_eq!(
        Node::new(Some(3), "t", "c", &vec![Reply::Nodes(vec![node(8, Some(3))])]),
        Step::Done(Ok(node(8, Some(3))))
    );
    assert_eq!(
        Node::new(Some(3), "t", "c", &vec![Reply::Failed("no parent".to_string())]),
        Step::Done(Err(failure(ErrorKind::Insert, "Error inserting node: no parent")))
    );
}

#[test]
fn node_get_asks_and_picks_by_identifier() {
    assert_eq!(Node::get(8, &vec![]), Step::Ask(Statement::NodeById(8)));
    let replies = vec![Reply::Nodes(vec![node(7, None), node(8, Some(7))])];
    assert_eq!(Node::get(8, &replies), Step::Done(Ok(node(8, Some(7)))));
    assert_eq!(
        Node::get(9, &replies),
        Step::Done(Err(failure(ErrorKind::NotFound, "Node node found: NotFound")))
    );
    assert_eq!(
        Node::get(9, &vec![Reply::NoConnection("down".to_string())]),
        Step::Done(Err(failure(ErrorKind::Connection, "Error getting connection pool: down")))
    );
}

#[test]
fn node_tree_is_the_tree_rooted_at_the_node() {
    let n = node(71, None);
    assert_eq!(n.tree(&vec![]), Step::Ask(Statement::TreeByRoot(71)));
    let replies = vec![Reply::Trees(vec![tree(4, "a", 70), tree(5, "b", 71)])];
    assert_eq!(n.tree(&replies), Step::Done(Ok(Some(tree(5, "b", 71)))));
    assert_eq!(n.tree(&vec![Reply::Trees(vec![tree(4, "a", 70)])]), Step::Done(Ok(None)));
    assert_eq!(
        n.tree(&vec![Reply::Failed("boom".to_string())]),
        Step::Done(Err(failure(ErrorKind::Query, "Error getting tree: boom")))
    );
}

#[test]
fn node_parent_of_a_root_asks_nothing() {
    assert_eq!(node(71, None).parent(&vec![]), Step::Done(Ok(None)));
    assert_eq!(
        node(71, None).parent(&vec![Reply::Failed("boom".to_string())]),
        Step::Done(Ok(None))
    );
}

#[test]
fn node_parent_is_the_node_that_the_reference_names() {
    let n = node(8, Some(7));
    assert_eq!(n.parent(&vec![]), Step::Ask(Statement::NodeById(7)));
    let replies = vec![Reply::Nodes(vec![node(9, Some(7)), node(7, None)])];
    assert_eq!(n.parent(&replies), Step::Done(Ok(Some(node(7, None)))));
    assert_eq!(n.parent(&vec![Reply::Nodes(vec![node(9, Some(7))])]), Step::Done(Ok(None)));
    assert_eq!(
        n.parent(&vec![Reply::Failed("boom".to_string())]),
        Step::Done(Err(failure(ErrorKind::Query, "Error getting node: boom")))
    );
}

#[test]
fn node_children_are_the_nodes_under_it() {
    let n = node(7, None);
    assert_eq!(n.children(&vec![]), Step::Ask(Statement::NodesByParent(7)));
    let replies = vec![Reply::Nodes(vec![
        node(8, Some(7)),
        node(9, Some(6)),
        node(10, None),
        node(11, Some(7)),
    ])];
    assert_eq!(n.children(&replies), Step::Done(Ok(vec![node(8, Some(7)), node(11, Some(7))])));
    assert_eq!(n.children(&vec![Reply::Nodes(vec![])]), Step::Done(Ok(vec![])));
    assert_eq!(
        n.children(&vec![Reply::Failed("boom".to_string())]),
        Step::Done(Err(failure(ErrorKind::Query, "Unable to load children: boom")))
    );
}
