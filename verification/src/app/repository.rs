//! The in-memory storage: a verified single-owner store of todos keyed by
//! id, and the shared, lock-guarded repository handle built on top of it.

use vstd::prelude::*;

use std::collections::HashMap;

use crate::domain::repository::{
    create_spec, created_todo, delete_spec, find_spec, ids_consistent, merged_todo, next_id,
    update_spec, CreateTodo, Todo, TodoRepository, TodoView, UpdateTodo,
};
use crate::errors::{not_found, ErrorKind};

use std::sync::Arc;
use vstd::rwlock::RwLock;
use vstd::std_specs::iter::IteratorSpec;

verus! {

broadcast use vstd::std_specs::hash::group_hash_axioms;

/// Builds the `NotFound` error for a missing id.
pub(crate) struct RepositoryNotFound;

impl RepositoryNotFound {
    pub(crate) fn new(id: i32) -> (r: ErrorKind)
        ensures
            r == not_found(id),
    {
        ErrorKind::RepositoryError(crate::errors::RepositoryError::NotFound(id))
    }
}

/// The backing store: one owner, one mapping from id to todo. Every
/// operation transforms the store exactly as the `*_spec` model in the
/// domain module says. Concurrent sharing is the business of
/// [`TodoRepositoryForMemory`], which guards one `TodoStore` with a lock.
pub struct TodoStore {
    map: HashMap<i32, Todo>,
}

impl View for TodoStore {
    type V = Map<i32, TodoView>;

    closed spec fn view(&self) -> Map<i32, TodoView> {
        self.map@.map_values(|t: Todo| t@)
    }
}

impl TodoStore {
    /// Every stored todo carries the id it is keyed under.
    pub open spec fn wf(&self) -> bool {
        ids_consistent(self@)
    }

    /// An empty store.
    pub fn new() -> (r: Self)
        ensures
            r.wf(),
            r@ == Map::<i32, TodoView>::empty(),
    {
        let r = TodoStore { map: HashMap::new() };
        proof {
            assert(r@ =~= Map::<i32, TodoView>::empty());
        }
        r
    }

    /// Assigns the id `size + 1`, stores the new todo under it, and returns
    /// it. The stored record starts out not completed.
    pub fn create(&mut self, payload: CreateTodo) -> (r: Todo)
        requires
            old(self).wf(),
        ensures
            final(self).wf(),
            r@ == created_todo(old(self)@, payload@),
            final(self)@ == create_spec(old(self)@, payload@),
            old(self)@.len() + 1 < 0x8000_0000 ==> r@.id == old(self)@.len() + 1,
    {
        proof {
            if old(self)@.len() + 1 < 0x8000_0000 {
                crate::domain::repository::lemma_next_id_small(old(self)@.len());
            }
        }
        let n: usize = self.map.len();
        let m: u64 = (n as u64) % 0x1_0000_0000u64;
        let m1: u64 = (m + 1) % 0x1_0000_0000u64;
        let id: i32 = if m1 < 0x8000_0000u64 {
            m1 as i32
        } else {
            ((m1 as i64) - 0x1_0000_0000i64) as i32
        };
        proof {
            assert(self@.dom() =~= self.map@.dom());
            assert(n == self@.len());
            vstd::arithmetic::div_mod::lemma_add_mod_noop(n as int, 1, 0x1_0000_0000);
            vstd::arithmetic::div_mod::lemma_small_mod(1nat, 0x1_0000_0000nat);
            assert(m1 == ((n + 1) as int) % 0x1_0000_0000);
            assert(id == next_id(n as nat));
        }
        let todo = Todo::new(id, payload.text());
        self.map.insert(id, todo.clone());
        proof {
            assert(final(self)@ =~= create_spec(old(self)@, payload@));
        }
        todo
    }

    /// Returns a copy of the todo stored under `id`, or `None` when no such
    /// id exists.
    pub fn find(&self, id: i32) -> (r: Option<Todo>)
        requires
            self.wf(),
        ensures
            r matches Some(t) ==> find_spec(self@, id) == Some(t@),
            r is None ==> find_spec(self@, id) is None,
    {
        match self.map.get(&id) {
            Some(t) => Some(t.clone()),
            None => None,
        }
    }

    /// Returns a copy of every stored todo. The order is whatever order the
    /// backing map yields its entries in; no order is promised. The ids in
    /// the result are distinct, and the result holds exactly the stored
    /// records.
    pub fn all(&self) -> (r: Vec<Todo>)
        requires
            self.wf(),
        ensures
            r@.len() == self@.len(),
            forall|i: int|
                0 <= i < r@.len() ==> self@.contains_key((#[trigger] r@[i])@.id) && self@[r@[i]@.id]
                    == r@[i]@,
            forall|i: int, j: int| 0 <= i < j < r@.len() ==> r@[i]@.id != r@[j]@.id,
            forall|t: TodoView| #[trigger]
                self@.values().contains(t) <==> exists|i: int|
                    0 <= i < r@.len() && (#[trigger] r@[i])@ == t,
    {
        let mut v: Vec<Todo> = Vec::new();
        let ghost pairs = vstd::std_specs::hash::spec_hash_map_iter(&self.map).remaining();
        proof {
            assert(self@.dom() =~= self.map@.dom());
        }
        for kv in it: self.map.iter()
            invariant
                self.wf(),
                pairs == vstd::std_specs::hash::spec_hash_map_iter(&self.map).remaining(),
                pairs.no_duplicates(),
                it.seq() == pairs,
                v@.len() == it.index(),
                v@.len() <= pairs.len(),
                forall|i: int|
                    0 <= i < v@.len() ==> (#[trigger] v@[i])@ == pairs[i].1@,
        {
            v.push(kv.1.clone());
        }
        proof {
            assert(v@.len() == pairs.len());
            self.lemma_all_post(v@, pairs);
        }
        v
    }

    /// After copying the map's entries in iteration order, the copies cover
    /// the store exactly.
    proof fn lemma_all_post(&self, vs: Seq<Todo>, pairs: Seq<(&i32, &Todo)>)
        requires
            self.wf(),
            pairs == vstd::std_specs::hash::spec_hash_map_iter(&self.map).remaining(),
            pairs.no_duplicates(),
            vs.len() == pairs.len(),
            forall|i: int| 0 <= i < vs.len() ==> (#[trigger] vs[i])@ == pairs[i].1@,
        ensures
            vs.len() == self@.len(),
            forall|i: int|
                0 <= i < vs.len() ==> self@.contains_key((#[trigger] vs[i])@.id) && self@[vs[i]@.id]
                    == vs[i]@,
            forall|i: int, j: int| 0 <= i < j < vs.len() ==> vs[i]@.id != vs[j]@.id,
            forall|t: TodoView| #[trigger]
                self@.values().contains(t) <==> exists|i: int|
                    0 <= i < vs.len() && (#[trigger] vs[i])@ == t,
    {
        vstd::std_specs::hash::axiom_spec_hash_map_iter(&self.map);
        assert(self@.dom() =~= self.map@.dom());
        assert(vs.len() == self@.len());
        assert forall|i: int| 0 <= i < vs.len() implies self@.contains_key(
            (#[trigger] vs[i])@.id,
        ) && self@[vs[i]@.id] == vs[i]@ by {
            let k = *pairs[i].0;
            assert(self.map@.contains_key(k) && self.map@[k] == *pairs[i].1);
            assert(self@[k] == self.map@[k]@);
            assert(vs[i]@.id == k);
        }
        assert forall|i: int, j: int| 0 <= i < j < vs.len() implies vs[i]@.id != vs[j]@.id by {
            let ki = *pairs[i].0;
            let kj = *pairs[j].0;
            assert(self.map@.contains_key(ki) && self.map@[ki] == *pairs[i].1);
            assert(self.map@.contains_key(kj) && self.map@[kj] == *pairs[j].1);
            assert(self@[ki] == self.map@[ki]@ && self@[kj] == self.map@[kj]@);
            assert(vs[i]@.id == ki && vs[j]@.id == kj);
            if ki == kj {
                assert(pairs[i] == pairs[j]);
                assert(false);
            }
        }
        assert forall|t: TodoView| #[trigger]
            self@.values().contains(t) implies exists|i: int|
            0 <= i < vs.len() && (#[trigger] vs[i])@ == t by {
            let k = choose|k: i32| self@.contains_key(k) && self@[k] == t;
            assert(self.map@.contains_key(k));
            assert(pairs.contains((&k, &self.map@[k])));
            let i = choose|i: int| 0 <= i < pairs.len() && pairs[i] == (&k, &self.map@[k]);
            assert(vs[i]@ == t);
        }
        assert forall|t: TodoView|
            exists|i: int| 0 <= i < vs.len() && (#[trigger] vs[i])@ == t implies #[trigger]
        self@.values().contains(t) by {
            let i = choose|i: int| 0 <= i < vs.len() && vs[i]@ == t;
            let k = *pairs[i].0;
            assert(self@.contains_key(k) && self@[k] == t);
        }
    }

    /// Merges the payload over the todo stored under `id` and replaces the
    /// record; fails with `NotFound` when the id is absent, leaving the
    /// store unchanged.
    pub fn update(&mut self, id: i32, payload: UpdateTodo) -> (r: Result<Todo, ErrorKind>)
        requires
            old(self).wf(),
        ensures
            final(self).wf(),
            r matches Ok(t) ==> t@ == update_spec(old(self)@, id, payload@).1.unwrap(),
            r is Ok <==> old(self)@.contains_key(id),
            final(self)@ == update_spec(old(self)@, id, payload@).0,
            r matches Err(e) ==> e == not_found(id),
    {
        let (text, completed): (String, bool) = match self.map.get(&id) {
            Some(t) => {
                let text = match payload.text() {
                    Some(s) => s,
                    None => t.text(),
                };
                let completed = match payload.completed() {
                    Some(b) => b,
                    None => t.completed(),
                };
                (text, completed)
            },
            None => {
                return Err(RepositoryNotFound::new(id));
            },
        };
        let todo = Todo::new_with_completed(id, text, completed);
        proof {
            assert(todo@ == merged_todo(id, old(self)@[id], payload@));
        }
        self.map.insert(id, todo.clone());
        proof {
            assert(final(self)@ =~= update_spec(old(self)@, id, payload@).0);
        }
        Ok(todo)
    }

    /// Removes the todo stored under `id`; fails with `NotFound` when the
    /// id is absent, leaving the store unchanged.
    pub fn delete(&mut self, id: i32) -> (r: Result<(), ErrorKind>)
        requires
            old(self).wf(),
        ensures
            final(self).wf(),
            r is Ok <==> old(self)@.contains_key(id),
            final(self)@ == delete_spec(old(self)@, id).0,
            r matches Err(e) ==> e == not_found(id),
    {
        match self.map.remove(&id) {
            Some(_) => {
                proof {
                    assert(final(self)@ =~= delete_spec(old(self)@, id).0);
                }
                Ok(())
            },
            None => {
                proof {
                    assert(final(self)@ =~= delete_spec(old(self)@, id).0);
                }
                Err(RepositoryNotFound::new(id))
            },
        }
    }
}

/// The predicate the repository lock maintains: the guarded store is well
/// formed.
pub struct StoreWf;

impl vstd::rwlock::RwLockPredicate<TodoStore> for StoreWf {
    open spec fn inv(self, s: TodoStore) -> bool {
        s.wf()
    }
}

/// The sole implementation of [`TodoRepository`]: one [`TodoStore`] guarded
/// by a read-write lock and shared through a reference-counted handle, so
/// that every clone of the repository observes the same data. Readers
/// (`find`, `all`) share the lock; writers (`create`, `update`, `delete`)
/// hold it exclusively for the one operation.
#[derive(Clone)]
pub struct TodoRepositoryForMemory {
    store: Arc<RwLock<TodoStore, StoreWf>>,
}

impl TodoRepositoryForMemory {
    /// A repository over an empty store.
    pub fn new() -> Self {
        TodoRepositoryForMemory {
            store: Arc::new(RwLock::new(TodoStore::new(), Ghost(StoreWf))),
        }
    }
}

impl TodoRepository for TodoRepositoryForMemory {
    fn create(&self, payload: CreateTodo) -> (r: Todo) {
        let (mut store, handle) = self.store.acquire_write();
        let todo = store.create(payload);
        handle.release_write(store);
        todo
    }

    fn find(&self, id: i32) -> (r: Option<Todo>) {
        let handle = self.store.acquire_read();
        let r = handle.borrow().find(id);
        handle.release_read();
        r
    }

    fn all(&self) -> (r: Vec<Todo>) {
        let handle = self.store.acquire_read();
        let r = handle.borrow().all();
        handle.release_read();
        r
    }

    fn update(&self, id: i32, payload: UpdateTodo) -> (r: Result<Todo, ErrorKind>) {
        let (mut store, handle) = self.store.acquire_write();
        let r = store.update(id, payload);
        handle.release_write(store);
        r
    }

    fn delete(&self, id: i32) -> (r: Result<(), ErrorKind>) {
        let (mut store, handle) = self.store.acquire_write();
        let r = store.delete(id);
        handle.release_write(store);
        r
    }
}

} // verus!
