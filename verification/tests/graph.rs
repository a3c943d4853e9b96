use graph_ed::context::{BatchLoader, Context};
use graph_ed::errors::{ErrorKind, FieldError};
use graph_ed::graph::{node, tree, user, Mutation, Query, UserInfo};
use graph_ed::models::{NewUser, Node, Tree, User, UserTree};
use graph_ed::store::{Reply, Statement, Step};
use graph_ed::time::{Timestamp, UtcInstant, EPOCH_DAY};

/// A store in memory, which remembers every statement it was asked.
struct Store {
    users: Vec<User>,
    trees: Vec<Tree>,
    grants: Vec<UserTree>,
    nodes: Vec<Node>,
    saved: Option<(usize, usize, usize)>,
    next_id: i32,
    asked: Vec<Statement>,
    down: bool,
    refuse_trees: bool,
}

fn now() -> Timestamp {
    Timestamp::new(EPOCH_DAY + 16_570, 3_600, 250).unwrap()
}

impl Store {
    fn new() -> Store {
        Store {
            users: vec![],
            trees: vec![],
            grants: vec![],
            nodes: vec![],
            saved: None,
            next_id: 100,
            asked: vec![],
            down: false,
            refuse_trees: false,
        }
    }

    fn fresh_id(&mut self) -> i32 {
        self.next_id += 1;
        self.next_id
    }

    fn run(&mut self, statement: &Statement) -> Reply {
        match statement {
            Statement::Begin => {
                self.saved = Some((self.users.len(), self.trees.len(), self.nodes.len()));
                Reply::Done
            }
            Statement::Commit => {
                self.saved = None;
                Reply::Done
            }
            Statement::Rollback => {
                if let Some((users, trees, nodes)) = self.saved.take() {
                    self.users.truncate(users);
                    self.trees.truncate(trees);
                    self.nodes.truncate(nodes);
                }
                Reply::Done
            }
            Statement::InsertUser(row) => {
                if self.users.iter().any(|user| user.email == row.email) {
                    return Reply::Failed("duplicate key value".to_string());
                }
                let user = User {
                    id: self.fresh_id(),
                    nickname: row.nickname.clone(),
                    email: row.email.clone(),
                    created: now(),
                    last_login: None,
                };
                self.users.push(user.clone());
                Reply::Users(vec![user])
            }
            Statement::InsertNode(row) => {
                let node = Node {
                    id: self.fresh_id(),
                    title: row.title.clone(),
                    content: row.content.clone(),
                    node_id: row.node_id,
                    created: now(),
                    updated: now(),
                };
                self.nodes.push(node.clone());
                Reply::Nodes(vec![node])
            }
            Statement::InsertTree(row) => {
                if self.refuse_trees {
                    return Reply::Failed("trees are read only".to_string());
                }
                let tree = Tree {
                    id: self.fresh_id(),
                    title: row.title.clone(),
                    node_id: row.node_id,
                    created: now(),
                    updated: now(),
                };
                self.trees.push(tree.clone());
                Reply::Trees(vec![tree])
            }
            Statement::UserById(id) => {
                Reply::Users(self.users.iter().filter(|u| u.id == *id).cloned().collect())
            }
            Statement::UserByEmail(email) => {
                Reply::Users(self.users.iter().filter(|u| u.email == *email).cloned().collect())
            }
            Statement::GrantsOfUser(id) => {
                Reply::Grants(self.grants.iter().filter(|g| g.user_id == *id).cloned().collect())
            }
            Statement::TreeById(id) => {
                Reply::Trees(self.trees.iter().filter(|t| t.id == *id).cloned().collect())
            }
            Statement::TreeByRoot(id) => {
                Reply::Trees(self.trees.iter().filter(|t| t.node_id == *id).cloned().collect())
            }
            Statement::TreesByIds(ids) => {
                Reply::Trees(self.trees.iter().rev().filter(|t| ids.contains(&t.id)).cloned().collect())
            }
            Statement::NodeById(id) => {
                Reply::Nodes(self.nodes.iter().filter(|n| n.id == *id).cloned().collect())
            }
            Statement::NodesByParent(id) => {
                Reply::Nodes(self.nodes.iter().filter(|n| n.node_id == Some(*id)).cloned().collect())
            }
            Statement::NodesByIds(ids) => {
                Reply::Nodes(self.nodes.iter().rev().filter(|n| ids.contains(&n.id)).cloned().collect())
            }
        }
    }

    fn answer(&mut self, statement: Statement) -> Reply {
        let reply = if self.down {
            Reply::NoConnection("timed out waiting for connection".to_string())
        } else {
            self.run(&statement)
        };
        self.asked.push(statement);
        reply
    }
}

/// Runs an operation that talks to the store.
fn resolve<T, E>(store: &mut Store, operation: impl Fn(&Vec<Reply>) -> Step<T, E>) -> Result<T, E> {
    let mut replies = vec![];
    loop {
        match operation(&replies) {
            Step::Ask(statement) => replies.push(store.answer(statement)),
            Step::Load(id) => panic!("a load of {} where none was expected", id),
            Step::Done(result) => return result,
        }
    }
}

/// Fetches what waits in the loader, in one batch.
fn flush(store: &mut Store, context: &mut Context) {
    let keys = context.loader.batch();
    if keys.is_empty() {
        return;
    }
    let loaded = resolve(store, |replies| context.load(&keys, replies));
    context.loader.deliver(&keys, &loaded);
}

/// Runs an operation that looks nodes up through the loader.
fn resolve_loaded<T, E>(
    store: &mut Store,
    context: &mut Context,
    operation: impl Fn(&BatchLoader) -> Step<T, E>,
) -> Result<T, E> {
    loop {
        match operation(&context.loader) {
            Step::Ask(statement) => panic!("a statement {:?} where none was expected", statement),
            Step::Load(id) => {
                context.loader.load(id);
                flush(store, context);
            }
            Step::Done(result) => return result,
        }
    }
}

fn a_node(id: i32, parent: Option<i32>) -> Node {
    Node {
        id,
        title: Some(format!("node {}", id)),
        content: Some("text".to_string()),
        node_id: parent,
        created: now(),
        updated: now(),
    }
}

fn a_tree(id: i32, node_id: i32) -> Tree {
    Tree { id, title: Some(format!("tree {}", id)), node_id, created: now(), updated: now() }
}

fn a_user(id: i32, email: &str) -> User {
    User {
        id,
        nickname: Some("bee".to_string()),
        email: email.to_string(),
        created: Timestamp::new(EPOCH_DAY + 1, 1, 5).unwrap(),
        last_login: Some(Timestamp::new(EPOCH_DAY + 2, 0, 0).unwrap()),
    }
}

fn field_error(kind: ErrorKind, message: &str, scope: &str) -> FieldError {
    FieldError { kind, message: message.to_string(), scope: scope.to_string() }
}

#[test]
fn api_version_is_one_point_zero() {
    assert_eq!(Query::api_version(), "1.0");
}

#[test]
fn node_returns_the_node_with_that_id() {
    let mut store = Store::new();
    store.nodes = vec![a_node(41, None), a_node(42, Some(41)), a_node(43, None)];
    for (text, id) in [("42", 42), ("+42", 42), ("0042", 42), ("41", 41)] {
        let mut context = Context::new();
        let found = resolve_loaded(&mut store, &mut context, |loader| Query::node(text, loader));
        assert_eq!(found.map(|node| node.id), Ok(id));
    }
    let mut context = Context::new();
    let found = resolve_loaded(&mut store, &mut context, |loader| Query::node("42", loader));
    assert_eq!(found, Ok(a_node(42, Some(41))));
}

#[test]
fn node_reports_a_node_that_is_not_there() {
    let mut store = Store::new();
    store.nodes = vec![a_node(41, None)];
    let mut context = Context::new();
    let found = resolve_loaded(&mut store, &mut context, |loader| Query::node("42", loader));
    assert_eq!(
        found,
        Err(field_error(ErrorKind::NotFound, "Node node found: NotFound", "42"))
    );
}

#[test]
fn node_first_asks_for_the_load() {
    let loader = BatchLoader::new();
    assert_eq!(Query::node("42", &loader), Step::Load(42));
    assert_eq!(Query::node("-7", &loader), Step::Load(-7));
}

#[test]
fn a_malformed_id_fails_before_the_store_is_asked() {
    let texts = ["", "abc", "12x", "4 2", "-", "1.5", "99999999999", "-99999999999"];
    let faults = [
        "cannot parse integer from empty string",
        "invalid digit found in string",
        "invalid digit found in string",
        "invalid digit found in string",
        "invalid digit found in string",
        "invalid digit found in string",
        "number too large to fit in target type",
        "number too small to fit in target type",
    ];
    for (text, fault) in texts.iter().zip(faults.iter()) {
        let wanted =
            field_error(ErrorKind::InvalidArgument, &format!("Invalid ID: {}", fault), text);
        let mut store = Store::new();
        store.nodes = vec![a_node(1, None)];
        store.trees = vec![a_tree(1, 1)];
        let mut context = Context::new();
        let found = resolve(&mut store, |replies| Query::tree(text, replies));
        assert_eq!(found, Err(wanted.clone()));
        let found = resolve_loaded(&mut store, &mut context, |loader| Query::node(text, loader));
        assert_eq!(found, Err(wanted.clone()));
        let made =
            resolve(&mut store, |replies| Mutation::create_node(text, "t", "c", replies));
        assert_eq!(made, Err(wanted));
        assert_eq!(store.asked.len(), 0);
        assert_eq!(context.loader.batch(), Vec::<i32>::new());
        assert_eq!(store.nodes.len(), 1);
    }
}

#[test]
fn a_malformed_id_fails_whatever_the_store_has_said() {
    let replies = vec![Reply::Trees(vec![a_tree(1, 1)]), Reply::Done];
    assert_eq!(
        Query::tree("one", &replies),
        Step::Done(Err(field_error(
            ErrorKind::InvalidArgument,
            "Invalid ID: invalid digit found in string",
            "one"
        )))
    );
}

#[test]
fn tree_returns_the_tree_with_that_id() {
    let mut store = Store::new();
    store.trees = vec![a_tree(4, 1), a_tree(5, 2)];
    assert_eq!(resolve(&mut store, |replies| Query::tree("5", replies)), Ok(a_tree(5, 2)));
    assert_eq!(store.asked, vec![Statement::TreeById(5)]);
    assert_eq!(
        resolve(&mut store, |replies| Query::tree("6", replies)),
        Err(field_error(ErrorKind::NotFound, "Tree not found: NotFound", "6"))
    );
}

#[test]
fn creating_a_tree_makes_an_empty_root_and_a_tree_that_names_it() {
    let mut store = Store::new();
    let made = resolve(&mut store, |replies| Mutation::create_tree("T", replies)).unwrap();
    assert_eq!(store.nodes.len(), 1);
    assert_eq!(store.trees.len(), 1);
    let root = store.nodes[0].clone();
    assert_eq!(root.title, None);
    assert_eq!(root.content, None);
    assert_eq!(root.node_id, None);
    assert_eq!(store.trees[0].title, Some("T".to_string()));
    assert_eq!(store.trees[0].node_id, root.id);
    assert_eq!(made, store.trees[0]);
    let mut context = Context::new();
    let found = resolve_loaded(&mut store, &mut context, |loader| tree::root(&made, loader));
    assert_eq!(found, Ok(root));
    assert_eq!(store.asked.first(), Some(&Statement::Begin));
    assert_eq!(store.asked.get(3), Some(&Statement::Commit));
}

#[test]
fn a_refused_tree_leaves_no_root_behind() {
    let mut store = Store::new();
    store.refuse_trees = true;
    let made = resolve(&mut store, |replies| Mutation::create_tree("T", replies));
    assert_eq!(
        made,
        Err(field_error(
            ErrorKind::Insert,
            "Error inserting tree: trees are read only",
            "createTree"
        ))
    );
    assert_eq!(store.asked.last(), Some(&Statement::Rollback));
    assert_eq!(store.nodes.len(), 0);
    assert_eq!(store.trees.len(), 0);
}

#[test]
fn a_pool_without_connections_fails_the_field() {
    let mut store = Store::new();
    store.down = true;
    assert_eq!(
        resolve(&mut store, |replies| Mutation::create_tree("T", replies)),
        Err(field_error(
            ErrorKind::Connection,
            "Error getting connection pool: timed out waiting for connection",
            "createTree"
        ))
    );
    assert_eq!(store.asked, vec![Statement::Begin]);
    assert_eq!(
        resolve(&mut store, |replies| Query::user("a@x", replies)),
        Err(field_error(
            ErrorKind::Connection,
            "Error getting connection pool: timed out waiting for connection",
            "a@x"
        ))
    );
    let mut context = Context::new();
    assert_eq!(
        resolve_loaded(&mut store, &mut context, |loader| Query::node("1", loader)),
        Err(field_error(
            ErrorKind::Connection,
            "Error getting connection pool: timed out waiting for connection",
            "1"
        ))
    );
}

#[test]
fn three_fields_that_need_one_root_make_one_query() {
    let mut store = Store::new();
    store.nodes = vec![a_node(41, None), a_node(42, None)];
    let trees = [a_tree(1, 42), a_tree(2, 42), a_tree(3, 42)];
    let mut context = Context::new();
    for tree in trees.iter() {
        match tree::root(tree, &context.loader) {
            Step::Load(id) => context.loader.load(id),
            step => panic!("{:?}", step),
        }
    }
    flush(&mut store, &mut context);
    flush(&mut store, &mut context);
    assert_eq!(store.asked, vec![Statement::NodesByIds(vec![42])]);
    for tree in trees.iter() {
        assert_eq!(tree::root(tree, &context.loader), Step::Done(Ok(a_node(42, None))));
    }
    assert_eq!(store.asked.len(), 1);
}

#[test]
fn a_missing_root_does_not_hold_up_the_other_roots() {
    let mut store = Store::new();
    store.nodes = vec![a_node(41, None), a_node(43, None)];
    let trees = [a_tree(1, 41), a_tree(2, 42), a_tree(3, 43)];
    let mut context = Context::new();
    for tree in trees.iter() {
        match tree::root(tree, &context.loader) {
            Step::Load(id) => context.loader.load(id),
            step => panic!("{:?}", step),
        }
    }
    flush(&mut store, &mut context);
    assert_eq!(store.asked, vec![Statement::NodesByIds(vec![41, 42, 43])]);
    assert_eq!(tree::root(&trees[0], &context.loader), Step::Done(Ok(a_node(41, None))));
    assert_eq!(
        tree::root(&trees[1], &context.loader),
        Step::Done(Err(field_error(ErrorKind::NotFound, "Node node found: NotFound", "root")))
    );
    assert_eq!(tree::root(&trees[2], &context.loader), Step::Done(Ok(a_node(43, None))));
}

#[test]
fn user_info_shows_no_timestamp() {
    let mut store = Store::new();
    store.users = vec![a_user(7, "b@x")];
    let info = resolve(&mut store, |replies| Query::user_info("b@x", replies)).unwrap();
    let UserInfo { id, nickname, email } = info;
    assert_eq!(id, "7");
    assert_eq!(nickname, Some("bee".to_string()));
    assert_eq!(email, "b@x");
    let mut later = a_user(7, "b@x");
    later.created = now();
    later.last_login = None;
    assert_eq!(UserInfo::from(later), UserInfo::from(a_user(7, "b@x")));
}

#[test]
fn user_info_of_an_unknown_address_fails_the_field() {
    let mut store = Store::new();
    assert_eq!(
        resolve(&mut store, |replies| Query::user_info("b@x", replies)),
        Err(field_error(ErrorKind::NotFound, "User not found: NotFound", "b@x"))
    );
}

#[test]
fn user_shows_its_timestamps_as_instants_of_utc() {
    let mut store = Store::new();
    store.users = vec![a_user(7, "b@x")];
    let found = resolve(&mut store, |replies| Query::user("b@x", replies)).unwrap();
    assert_eq!(found, a_user(7, "b@x"));
    assert_eq!(user::id(&found), "7");
    assert_eq!(user::nickname(&found), &Some("bee".to_string()));
    assert_eq!(user::email(&found), "b@x");
    assert_eq!(user::created(&found), UtcInstant { secs: 86_401, nanos: 5 });
    assert_eq!(user::last_login(&found), Some(UtcInstant { secs: 172_800, nanos: 0 }));
    let mut never = a_user(8, "c@x");
    never.last_login = None;
    assert_eq!(user::last_login(&never), None);
}

#[test]
fn a_user_reaches_exactly_the_granted_trees() {
    let mut store = Store::new();
    store.trees = vec![a_tree(10, 1), a_tree(20, 2), a_tree(30, 3), a_tree(40, 4)];
    store.grants = vec![
        UserTree { id: 1, user_id: 7, tree_id: 30 },
        UserTree { id: 2, user_id: 8, tree_id: 20 },
        UserTree { id: 3, user_id: 7, tree_id: 10 },
        UserTree { id: 4, user_id: 7, tree_id: 30 },
        UserTree { id: 5, user_id: 7, tree_id: 99 },
    ];
    let mut found = resolve(&mut store, |replies| user::trees(&a_user(7, "b@x"), replies)).unwrap();
    found.sort_by_key(|tree| tree.id);
    assert_eq!(found, vec![a_tree(10, 1), a_tree(30, 3)]);
    assert_eq!(
        store.asked,
        vec![Statement::GrantsOfUser(7), Statement::TreesByIds(vec![30, 10, 99])]
    );
    let none = resolve(&mut store, |replies| user::trees(&a_user(9, "c@x"), replies)).unwrap();
    assert_eq!(none, vec![]);
}

#[test]
fn create_user_returns_the_row_of_the_store() {
    let mut store = Store::new();
    let new_user = NewUser { nickname: None, email: "n@x".to_string() };
    let made = resolve(&mut store, |replies| Mutation::create_user(&new_user, replies)).unwrap();
    assert_eq!(made.email, "n@x");
    assert_eq!(made.nickname, None);
    assert_eq!(store.users, vec![made]);
    assert_eq!(
        resolve(&mut store, |replies| Mutation::create_user(&new_user, replies)),
        Err(field_error(
            ErrorKind::Insert,
            "Error inserting user: duplicate key value",
            "createUser"
        ))
    );
}

#[test]
fn create_node_puts_the_node_under_its_parent() {
    let mut store = Store::new();
    store.nodes = vec![a_node(41, None)];
    let made =
        resolve(&mut store, |replies| Mutation::create_node("41", "title", "content", replies))
            .unwrap();
    assert_eq!(made.node_id, Some(41));
    assert_eq!(made.title, Some("title".to_string()));
    assert_eq!(made.content, Some("content".to_string()));
    let children = resolve(&mut store, |replies| node::children(&a_node(41, None), replies));
    assert_eq!(children, Ok(vec![made]));
}

#[test]
fn the_mutations_that_are_not_built_fail() {
    assert_eq!(
        Mutation::share_tree("1", "2"),
        Step::Done(Err(field_error(
            ErrorKind::Unimplemented,
            "not yet implemented: shareTree",
            "shareTree"
        )))
    );
    assert_eq!(
        Mutation::edit_node("1", "t", "c"),
        Step::Done(Err(field_error(
            ErrorKind::Unimplemented,
            "not yet implemented: editNode",
            "editNode"
        )))
    );
}

#[test]
fn the_fields_of_a_tree() {
    let t = a_tree(5, 42);
    assert_eq!(tree::id(&t), "5");
    assert_eq!(tree::title(&t), &Some("tree 5".to_string()));
    assert_eq!(tree::created(&t), now().as_utc());
    assert_eq!(tree::updated(&t), UtcInstant { secs: 16_570 * 86_400 + 3_600, nanos: 250 });
}

#[test]
fn the_fields_of_a_node() {
    let mut store = Store::new();
    store.nodes = vec![a_node(41, None), a_node(42, Some(41)), a_node(43, Some(41)), a_node(44, Some(9))];
    store.trees = vec![a_tree(5, 41)];
    let n = a_node(42, Some(41));
    assert_eq!(node::id(&n), "42");
    assert_eq!(node::title(&n), &Some("node 42".to_string()));
    assert_eq!(node::content(&n), &Some("text".to_string()));
    assert_eq!(node::created(&n), now().as_utc());
    assert_eq!(node::updated(&n), now().as_utc());
    assert_eq!(resolve(&mut store, |replies| node::tree(&n, replies)), Ok(None));
    assert_eq!(
        resolve(&mut store, |replies| node::tree(&a_node(41, None), replies)),
        Ok(Some(a_tree(5, 41)))
    );
    let mut context = Context::new();
    assert_eq!(
        resolve_loaded(&mut store, &mut context, |loader| node::parent(&n, loader)),
        Ok(Some(a_node(41, None)))
    );
    assert_eq!(
        resolve_loaded(&mut store, &mut context, |loader| node::parent(&a_node(41, None), loader)),
        Ok(None)
    );
    assert_eq!(
        resolve_loaded(&mut store, &mut context, |loader| node::parent(&a_node(44, Some(9)), loader)),
        Ok(None)
    );
    assert_eq!(
        resolve(&mut store, |replies| node::children(&a_node(41, None), replies)),
        Ok(vec![a_node(42, Some(41)), a_node(43, Some(41))])
    );
}

#[test]
fn a_failed_batch_fails_the_parent_field() {
    let mut store = Store::new();
    store.down = true;
    let mut context = Context::new();
    assert_eq!(
        resolve_loaded(&mut store, &mut context, |loader| node::parent(&a_node(42, Some(41)), loader)),
        Err(field_error(
            ErrorKind::Connection,
            "Error getting connection pool: timed out waiting for connection",
            "parent"
        ))
    );
}
