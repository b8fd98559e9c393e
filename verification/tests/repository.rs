use my_todo::app::repository::TodoRepositoryForMemory;
use my_todo::domain::repository::{CreateTodo, Todo, TodoRepository, UpdateTodo};

fn add(left: usize, right: usize) -> usize {
    left + right
}

#[test]
fn it_works() {
    let result: usize = crate::add(2, 2);
    assert_eq!(result, 4);
}

#[test]
fn todo_crud_scenario() {
    let text = "todo text".to_string();
    let id: i32 = 1;
    let expected = Todo::new(id, text.clone());

    // create
    let repository = TodoRepositoryForMemory::new();
    let todo = repository.create(CreateTodo::new(text));
    assert_eq!(expected, todo);

    // find
    let todo = repository.find(todo.id()).unwrap();
    assert_eq!(expected, todo);

    // all
    let todos = repository.all();
    assert_eq!(vec![expected], todos);

    // update
    let text = "update todo text".to_string();
    let todo = repository
        .update(1, UpdateTodo::new(Some(text.clone()), Some(true)))
        .expect("failed update todo.");
    assert_eq!(id, todo.id());
    assert_eq!(text, todo.text());
    assert_eq!(true, todo.completed());

    // delete
    let res = repository.delete(id);
    assert!(res.is_ok())
}

#[test]
fn shared_handles_see_one_store() {
    let repository = TodoRepositoryForMemory::new();
    let other = repository.clone();
    repository.create(CreateTodo::new("shared".to_string()));
    let found = other.find(1).unwrap();
    assert_eq!("shared".to_string(), found.text());
    assert_eq!(1, other.all().len());
}

#[test]
fn create_update_delete_find_scenario() {
    // create {text:"a"} yields Todo{id:1, text:"a", completed:false}
    let repository = TodoRepositoryForMemory::new();
    let created = repository.create(CreateTodo::new("a".to_string()));
    assert_eq!(Todo::new_with_completed(1, "a".to_string(), false), created);

    // update id=1 with {completed:true} yields Todo{id:1, text:"a", completed:true}
    let updated = repository
        .update(1, UpdateTodo::new(None, Some(true)))
        .unwrap();
    assert_eq!(Todo::new_with_completed(1, "a".to_string(), true), updated);

    // delete id=1 succeeds; a later find(1) reports absence
    assert!(repository.delete(1).is_ok());
    assert!(repository.find(1).is_none());
}

#[test]
fn sequential_creates_assign_sequential_ids() {
    // without any deletion, the size-based assignment hands out 1, 2, ...
    let repository = TodoRepositoryForMemory::new();
    let first = repository.create(CreateTodo::new("a".to_string()));
    let second = repository.create(CreateTodo::new("b".to_string()));
    assert_eq!(1, first.id());
    assert_eq!(2, second.id());
}
