//! The repository contract: the todo entity, the two input payloads, the
//! storage trait, and a mathematical model of every storage operation.
//!
//! The model speaks of a store as a `Map<i32, TodoView>` from id to entity.
//! Each executable operation of the in-memory store promises to transform
//! its store exactly as the corresponding `*_spec` function says, so the
//! laws at the bottom of this file carry over to the executable code.

use vstd::prelude::*;

use crate::errors::{not_found, ErrorKind};

verus! {

/// The mathematical value of a [`Todo`]: its id, text and completion flag.
pub ghost struct TodoView {
    pub id: i32,
    pub text: Seq<char>,
    pub completed: bool,
}

/// The mathematical value of an [`UpdateTodo`]: each field is present or
/// absent independently.
pub ghost struct UpdateTodoView {
    pub text: Option<Seq<char>>,
    pub completed: Option<bool>,
}

/// One todo record: an id assigned by the repository, the text, and a
/// completion flag that starts out false.
#[derive(Debug, PartialEq, Eq)]
pub struct Todo {
    id: i32,
    text: String,
    completed: bool,
}

impl View for Todo {
    type V = TodoView;

    closed spec fn view(&self) -> TodoView {
        TodoView { id: self.id, text: self.text@, completed: self.completed }
    }
}

impl Clone for Todo {
    fn clone(&self) -> (r: Self)
        ensures
            r@ == self@,
    {
        Todo { id: self.id, text: self.text.clone(), completed: self.completed }
    }
}

impl Todo {
    /// A fresh record with the given id and text; `completed` defaults to
    /// false.
    pub fn new(id: i32, text: String) -> (r: Self)
        ensures
            r@ == (TodoView { id, text: text@, completed: false }),
    {
        Self { id, text, completed: false }
    }

    /// A record with every field given explicitly.
    pub fn new_with_completed(id: i32, text: String, completed: bool) -> (r: Self)
        ensures
            r@ == (TodoView { id, text: text@, completed }),
    {
        Self { id, text, completed }
    }

    pub fn id(&self) -> (r: i32)
        ensures
            r == self@.id,
    {
        self.id
    }

    pub fn text(&self) -> (r: String)
        ensures
            r@ == self@.text,
    {
        self.text.clone()
    }

    pub fn completed(&self) -> (r: bool)
        ensures
            r == self@.completed,
    {
        self.completed
    }
}

/// The input for `create`: the text of the todo to make. The id is assigned
/// by the repository.
#[derive(Debug, Clone, PartialEq, Eq)]
pub struct CreateTodo {
    text: String,
}

impl View for CreateTodo {
    type V = Seq<char>;

    closed spec fn view(&self) -> Seq<char> {
        self.text@
    }
}

impl CreateTodo {
    pub fn new(text: String) -> (r: Self)
        ensures
            r@ == text@,
    {
        Self { text }
    }

    pub fn text(&self) -> (r: String)
        ensures
            r@ == self@,
    {
        self.text.clone()
    }
}

/// The input for `update`: a partial record. An absent field leaves the
/// corresponding field of the stored todo unchanged.
#[derive(Debug, Clone, PartialEq, Eq)]
pub struct UpdateTodo {
    text: Option<String>,
    completed: Option<bool>,
}

impl View for UpdateTodo {
    type V = UpdateTodoView;

    closed spec fn view(&self) -> UpdateTodoView {
        UpdateTodoView {
            text: match self.text {
                Some(ref s) => Some(s@),
                None => None,
            },
            completed: self.completed,
        }
    }
}

impl UpdateTodo {
    pub fn new(text: Option<String>, completed: Option<bool>) -> (r: Self)
        ensures
            r@.text is Some <==> text is Some,
            text matches Some(t) ==> r@.text == Some(t@),
            r@.completed == completed,
    {
        Self { text, completed }
    }

    pub fn text(&self) -> (r: Option<String>)
        ensures
            r is Some <==> self@.text is Some,
            r matches Some(s) ==> self@.text == Some(s@),
    {
        match &self.text {
            Some(s) => Some(s.clone()),
            None => None,
        }
    }

    pub fn completed(&self) -> (r: Option<bool>)
        ensures
            r == self@.completed,
    {
        self.completed
    }
}

/// Every record of the store carries the id it is keyed under. Every
/// reachable store has this shape: `create` and `update` key each record
/// under its own id.
pub open spec fn ids_consistent(m: Map<i32, TodoView>) -> bool {
    forall|k: i32| m.contains_key(k) ==> (#[trigger] m[k]).id == k
}

/// The id that `create` assigns when the store currently holds `n` records:
/// `n + 1`, reduced to an `i32` the way a numeric cast reduces it (the
/// count is taken modulo 2^32 and reinterpreted as a signed value). For
/// every store a machine can hold, this is simply `n + 1`; the reduction
/// only pins down the behaviour at sizes where `n + 1` no longer fits.
pub open spec fn next_id(n: nat) -> i32 {
    let m = ((n + 1) as int) % 0x1_0000_0000;
    if m < 0x8000_0000 {
        m as i32
    } else {
        (m - 0x1_0000_0000) as i32
    }
}

/// The record that `create` makes and stores when the store is `m` and the
/// requested text is `text`.
pub open spec fn created_todo(m: Map<i32, TodoView>, text: Seq<char>) -> TodoView {
    TodoView { id: next_id(m.len()), text, completed: false }
}

/// The store after `create`.
pub open spec fn create_spec(m: Map<i32, TodoView>, text: Seq<char>) -> Map<i32, TodoView> {
    m.insert(created_todo(m, text).id, created_todo(m, text))
}

/// What `find` returns: the stored record, or explicit absence.
pub open spec fn find_spec(m: Map<i32, TodoView>, id: i32) -> Option<TodoView> {
    if m.contains_key(id) {
        Some(m[id])
    } else {
        None
    }
}

/// The record that replaces the stored one on `update`: present payload
/// fields win, absent ones keep the stored values.
pub open spec fn merged_todo(id: i32, t: TodoView, u: UpdateTodoView) -> TodoView {
    TodoView {
        id,
        text: match u.text {
            Some(s) => s,
            None => t.text,
        },
        completed: match u.completed {
            Some(b) => b,
            None => t.completed,
        },
    }
}

/// The store and the result after `update`: a merge and a replacement when
/// the id is present, an untouched store and `NotFound` when it is absent.
pub open spec fn update_spec(m: Map<i32, TodoView>, id: i32, u: UpdateTodoView) -> (
    Map<i32, TodoView>,
    Result<TodoView, ErrorKind>,
) {
    if m.contains_key(id) {
        (m.insert(id, merged_todo(id, m[id], u)), Ok(merged_todo(id, m[id], u)))
    } else {
        (m, Err(not_found(id)))
    }
}

/// The store and the result after `delete`: a removal when the id is
/// present, an untouched store and `NotFound` when it is absent.
pub open spec fn delete_spec(m: Map<i32, TodoView>, id: i32) -> (
    Map<i32, TodoView>,
    Result<(), ErrorKind>,
) {
    if m.contains_key(id) {
        (m.remove(id), Ok(()))
    } else {
        (m, Err(not_found(id)))
    }
}

/// The store after creating one todo for each text in `texts`, in order,
/// starting from `m`.
pub open spec fn create_all_spec(m: Map<i32, TodoView>, texts: Seq<Seq<char>>) -> Map<
    i32,
    TodoView,
>
    decreases texts.len(),
{
    if texts.len() == 0 {
        m
    } else {
        create_spec(create_all_spec(m, texts.drop_last()), texts.last())
    }
}

/// While the count below stays within the id type, the assigned id is
/// literally the count plus one.
pub proof fn lemma_next_id_small(n: nat)
    requires
        n + 1 < 0x8000_0000,
    ensures
        next_id(n) == n + 1,
{
    vstd::arithmetic::div_mod::lemma_small_mod((n + 1) as nat, 0x1_0000_0000nat);
}

/// A created todo always starts with the requested text and with
/// `completed` false.
pub proof fn lemma_create_defaults(m: Map<i32, TodoView>, text: Seq<char>)
    ensures
        created_todo(m, text).completed == false,
        created_todo(m, text).text == text,
{
}

/// As long as no deletion has ever happened, the stored ids are exactly
/// `1..=size`, and the id a create assigns is fresh: it collides with no
/// stored record. (After a deletion the size-based assignment can reuse a
/// live id; that is the documented behaviour, so freshness is only claimed
/// for the deletion-free shape.)
pub proof fn lemma_create_fresh_id(m: Map<i32, TodoView>, text: Seq<char>)
    requires
        m.dom().finite(),
        forall|k: i32| m.contains_key(k) <==> 1 <= k <= m.len(),
        m.len() + 1 < 0x8000_0000,
    ensures
        !m.contains_key(created_todo(m, text).id),
{
    lemma_next_id_small(m.len());
}

/// A todo just created is found under its id, unchanged.
pub proof fn lemma_created_todo_is_found(m: Map<i32, TodoView>, text: Seq<char>)
    ensures
        ({
            let t = created_todo(m, text);
            find_spec(create_spec(m, text), t.id) == Some(t)
        }),
{
}

/// Updating an absent id fails with `NotFound` for that id and leaves the
/// store unchanged.
pub proof fn lemma_update_absent(m: Map<i32, TodoView>, id: i32, u: UpdateTodoView)
    requires
        !m.contains_key(id),
    ensures
        update_spec(m, id, u).0 == m,
        update_spec(m, id, u).1 == Err::<TodoView, ErrorKind>(not_found(id)),
{
}

/// A partial update only touches the fields the payload carries: with no
/// `text` the stored text stays, with no `completed` the stored flag stays.
pub proof fn lemma_update_partial(m: Map<i32, TodoView>, id: i32, u: UpdateTodoView)
    requires
        m.contains_key(id),
    ensures
        ({
            let r = update_spec(m, id, u).1;
            &&& r matches Ok(t) && (u.completed is None ==> t.completed == m[id].completed)
            &&& r matches Ok(t) && (u.text is None ==> t.text == m[id].text)
        }),
{
}

/// Deleting an absent id fails with `NotFound` for that id and leaves the
/// store unchanged.
pub proof fn lemma_delete_absent(m: Map<i32, TodoView>, id: i32)
    requires
        !m.contains_key(id),
    ensures
        delete_spec(m, id).0 == m,
        delete_spec(m, id).1 == Err::<(), ErrorKind>(not_found(id)),
{
}

/// After a delete, a find on the same id reports absence — whether or not
/// the id was stored.
pub proof fn lemma_find_after_delete(m: Map<i32, TodoView>, id: i32)
    ensures
        find_spec(delete_spec(m, id).0, id) is None,
{
}

/// Creating todos with texts `T1..Tn` in an empty store yields ids
/// `1..=n` in order, each record keyed under its id.
proof fn lemma_create_all_shape(texts: Seq<Seq<char>>)
    requires
        texts.len() < 0x8000_0000,
    ensures
        ({
            let m = create_all_spec(Map::<i32, TodoView>::empty(), texts);
            &&& m.dom().finite()
            &&& m.len() == texts.len()
            &&& forall|k: i32| m.contains_key(k) <==> 1 <= k <= texts.len()
            &&& forall|i: int|
                0 <= i < texts.len() ==> m[(i + 1) as i32] == (TodoView {
                    id: (i + 1) as i32,
                    text: texts[i],
                    completed: false,
                })
        }),
    decreases texts.len(),
{
    let m = create_all_spec(Map::<i32, TodoView>::empty(), texts);
    if texts.len() == 0 {
        assert(m.dom() =~= Set::<i32>::empty());
    } else {
        let prev_texts = texts.drop_last();
        lemma_create_all_shape(prev_texts);
        let prev = create_all_spec(Map::<i32, TodoView>::empty(), prev_texts);
        lemma_next_id_small(prev.len());
        let id = next_id(prev.len());
        assert(!prev.contains_key(id));
        assert(m == prev.insert(id, created_todo(prev, texts.last())));
        assert(m.dom() == prev.dom().insert(id));
        vstd::set::axiom_set_insert_len(prev.dom(), id);
        assert(m.len() == texts.len());
        assert forall|i: int| 0 <= i < texts.len() implies m[(i + 1) as i32] == (TodoView {
            id: (i + 1) as i32,
            text: texts[i],
            completed: false,
        }) by {
            if i + 1 < texts.len() {
                assert(texts[i] == prev_texts[i]);
            }
        }
    }
}

/// After creating todos with texts `T1..Tn` in an empty store, the stored
/// records are exactly the todos `{ id: i, text: Ti, completed: false }`
/// for `i` in `1..=n` — the set that `all` hands back, in whatever order.
pub proof fn lemma_all_after_creates(texts: Seq<Seq<char>>)
    requires
        texts.len() < 0x8000_0000,
    ensures
        create_all_spec(Map::<i32, TodoView>::empty(), texts).values() == Set::new(
            |t: TodoView|
                exists|i: int|
                    0 <= i < texts.len() && t == (TodoView {
                        id: (i + 1) as i32,
                        text: texts[i],
                        completed: false,
                    }),
        ),
{
    lemma_create_all_shape(texts);
    let m = create_all_spec(Map::<i32, TodoView>::empty(), texts);
    let expected = Set::new(
        |t: TodoView|
            exists|i: int|
                0 <= i < texts.len() && t == (TodoView {
                    id: (i + 1) as i32,
                    text: texts[i],
                    completed: false,
                }),
    );
    assert forall|t: TodoView| m.values().contains(t) implies expected.contains(t) by {
        let k = choose|k: i32| #[trigger] m.contains_key(k) && m[k] == t;
        let i = k - 1;
        assert(m[(i + 1) as i32] == t);
        assert(0 <= i < texts.len() && t == (TodoView {
            id: (i + 1) as i32,
            text: texts[i],
            completed: false,
        }));
    }
    assert forall|t: TodoView| expected.contains(t) implies m.values().contains(t) by {
        let i = choose|i: int|
            0 <= i < texts.len() && t == (TodoView {
                id: (i + 1) as i32,
                text: texts[i],
                completed: false,
            });
        assert(m.contains_key((i + 1) as i32) && m[(i + 1) as i32] == t);
        assert(m.contains_value(t));
    }
    assert(m.values() =~= expected);
}

/// The storage contract: create, find, all, update and delete over todos,
/// decoupled from any transport. Implementations are shared across
/// concurrent callers through cloned handles, so the methods take `&self`
/// and can only promise what holds of their returned values; the in-memory
/// store behind them pins the state transitions down exactly.
pub trait TodoRepository: Clone + Send + Sync + Sized + 'static {
    /// Stores a new todo with the given text; the new record is not yet
    /// completed.
    fn create(&self, payload: CreateTodo) -> (r: Todo)
        ensures
            r@.text == payload@,
            r@.completed == false,
    ;

    /// Looks a todo up by id; absence is a valid outcome, not an error.
    fn find(&self, id: i32) -> (r: Option<Todo>)
        ensures
            r matches Some(t) ==> t@.id == id,
    ;

    /// Every stored todo, in no particular order.
    fn all(&self) -> (r: Vec<Todo>)
        ensures
            forall|i: int, j: int|
                0 <= i < j < r@.len() ==> r@[i]@.id != r@[j]@.id,
    ;

    /// Replaces the todo under `id` by the merge of the stored record and
    /// the payload; fails with `NotFound` when the id is absent.
    fn update(&self, id: i32, payload: UpdateTodo) -> (r: Result<Todo, ErrorKind>)
        ensures
            r matches Ok(t) ==> {
                &&& t@.id == id
                &&& (payload@.text matches Some(s) ==> t@.text == s)
                &&& (payload@.completed matches Some(b) ==> t@.completed == b)
            },
            r matches Err(e) ==> e == not_found(id),
    ;

    /// Removes the todo under `id`; fails with `NotFound` when the id is
    /// absent.
    fn delete(&self, id: i32) -> (r: Result<(), ErrorKind>)
        ensures
            r matches Err(e) ==> e == not_found(id),
    ;
}

} // verus!
