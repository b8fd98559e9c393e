use my_todo::app::repository::TodoStore;
use my_todo::domain::repository::{CreateTodo, Todo, UpdateTodo};
use my_todo::errors::{ErrorKind, RepositoryError};

#[test]
fn created_todo_defaults() {
    let mut store = TodoStore::new();
    let todo = store.create(CreateTodo::new("buy milk".to_string()));
    assert_eq!(false, todo.completed());
    assert_eq!("buy milk".to_string(), todo.text());
    // the id is fresh: nothing else is stored under it
    assert_eq!(1, todo.id());
    assert_eq!(1, store.all().len());
}

#[test]
fn find_returns_created_todo() {
    let mut store = TodoStore::new();
    let created = store.create(CreateTodo::new("water plants".to_string()));
    let found = store.find(created.id()).unwrap();
    assert_eq!(created, found);
}

#[test]
fn all_returns_exactly_the_created_todos() {
    let mut store = TodoStore::new();
    let mut created: Vec<Todo> = Vec::new();
    created.push(store.create(CreateTodo::new("a".to_string())));
    created.push(store.create(CreateTodo::new("b".to_string())));
    created.push(store.create(CreateTodo::new("c".to_string())));

    let mut todos = store.all();
    assert_eq!(created.len(), todos.len());
    // order is unspecified: compare as sets by sorting on the distinct ids
    todos.sort_by_key(|t| t.id());
    assert_eq!(created, todos);
}

#[test]
fn update_absent_id_fails_and_changes_nothing() {
    let mut store = TodoStore::new();
    let kept = store.create(CreateTodo::new("keep me".to_string()));
    let res = store.update(7, UpdateTodo::new(Some("x".to_string()), Some(true)));
    assert_eq!(
        Err(ErrorKind::RepositoryError(RepositoryError::NotFound(7))),
        res
    );
    let todos = store.all();
    assert_eq!(vec![kept], todos);
}

#[test]
fn partial_update_keeps_missing_fields() {
    let mut store = TodoStore::new();
    store.create(CreateTodo::new("original".to_string()));

    // only text set: completed stays untouched
    let updated = store
        .update(1, UpdateTodo::new(Some("renamed".to_string()), None))
        .unwrap();
    assert_eq!("renamed".to_string(), updated.text());
    assert_eq!(false, updated.completed());

    // only completed set: text stays untouched
    let updated = store.update(1, UpdateTodo::new(None, Some(true))).unwrap();
    assert_eq!("renamed".to_string(), updated.text());
    assert_eq!(true, updated.completed());
}

#[test]
fn delete_absent_id_fails_and_changes_nothing() {
    let mut store = TodoStore::new();
    let kept = store.create(CreateTodo::new("keep me".to_string()));
    let res = store.delete(9);
    assert_eq!(
        Err(ErrorKind::RepositoryError(RepositoryError::NotFound(9))),
        res
    );
    let todos = store.all();
    assert_eq!(vec![kept], todos);
}

#[test]
fn find_after_delete_reports_absence() {
    let mut store = TodoStore::new();
    let created = store.create(CreateTodo::new("short lived".to_string()));
    assert!(store.delete(created.id()).is_ok());
    assert!(store.find(created.id()).is_none());
}

#[test]
fn delete_then_create_reuses_the_highest_id() {
    // the documented quirk of size-based assignment: delete the highest id,
    // create again, and the same id comes back
    let mut store = TodoStore::new();
    store.create(CreateTodo::new("a".to_string()));
    store.create(CreateTodo::new("b".to_string()));
    assert!(store.delete(2).is_ok());
    let reborn = store.create(CreateTodo::new("c".to_string()));
    assert_eq!(2, reborn.id());
}

#[test]
fn update_replaces_the_stored_record() {
    let mut store = TodoStore::new();
    store.create(CreateTodo::new("before".to_string()));
    let updated = store
        .update(1, UpdateTodo::new(Some("after".to_string()), Some(true)))
        .unwrap();
    let found = store.find(1).unwrap();
    assert_eq!(updated, found);
    assert_eq!("after".to_string(), found.text());
    assert_eq!(true, found.completed());
}
