//! Records and the service that keeps them.
//!
//! A record is a short text under an identifier that the service assigns.
//! The service itself lies outside this library; what is here is the
//! interface that the request gate needs of it, and a service in memory that
//! stands in for the real one.

use crate::codec::{decimal, encode};
use vstd::prelude::*;

verus! {

/// A record as the contracts see it.
pub struct TodoModel {
    pub id: i64,
    pub text: Seq<char>,
}

/// A record: a text under the identifier that the record service gave it.
#[derive(Debug, Clone, PartialEq, Eq)]
pub struct Todo {
    pub id: i64,
    pub text: String,
}

impl View for Todo {
    type V = TodoModel;

    open spec fn view(&self) -> TodoModel {
        TodoModel { id: self.id, text: self.text@ }
    }
}

/// A record as it is written on the wire: the identifier as its decimal
/// string.
#[derive(Debug, Clone, PartialEq, Eq)]
pub struct WireTodo {
    pub id: String,
    pub text: String,
}

/// A record on the wire as the contracts see it.
pub struct WireTodoModel {
    pub id: Seq<char>,
    pub text: Seq<char>,
}

impl View for WireTodo {
    type V = WireTodoModel;

    open spec fn view(&self) -> WireTodoModel {
        WireTodoModel { id: self.id@, text: self.text@ }
    }
}

/// The wire form of a record.
pub open spec fn wire_of(t: TodoModel) -> WireTodoModel {
    WireTodoModel { id: decimal(t.id as int), text: t.text }
}

impl Todo {
    /// A second record with the same identifier and text.
    pub fn duplicate(&self) -> (t: Todo)
        ensures
            t@ == self@,
    {
        Todo { id: self.id, text: self.text.clone() }
    }

    /// The record as it is written on the wire.
    pub fn to_wire(&self) -> (w: WireTodo)
        ensures
            w@ == wire_of(self@),
    {
        WireTodo { id: encode(self.id), text: self.text.clone() }
    }
}

/// The failure of the record service, with the words it gave.
#[derive(Debug, Clone, PartialEq, Eq)]
pub struct StoreError {
    pub message: String,
}

impl View for StoreError {
    type V = Seq<char>;

    open spec fn view(&self) -> Seq<char> {
        self.message@
    }
}

/// A store of records of type `T` under 64-bit identifiers.
pub trait Dao<T> {
    /// All records.
    fn get_all(&self) -> Vec<T>;

    /// The record under `id`, if there is one.
    fn get_by_id(&self, id: i64) -> Option<T>;

    /// Stores `data` as a new record under an identifier of the store's
    /// choice, and returns the record as stored.
    fn save(&mut self, data: T) -> Result<T, StoreError>;

    /// Removes the record under `id` and returns it.
    fn delete(&mut self, id: i64) -> Result<T, StoreError>;

    /// Replaces the record under `id` by `data` and returns the record as
    /// stored.
    fn update(&mut self, id: i64, data: T) -> Result<T, StoreError>;
}

/// The content of a record store: its records in the order in which they
/// were made, and the identifier that the next record gets.
pub struct MemoryModel {
    pub rows: Seq<TodoModel>,
    pub next_id: int,
}

impl MemoryModel {
    /// Identifiers are handed out in rising order, starting at one, and
    /// none is used twice.
    pub open spec fn wf(self) -> bool {
        &&& 1 <= self.next_id <= i64::MAX
        &&& forall|i: int|
            0 <= i < self.rows.len() ==> 1 <= (#[trigger] self.rows[i]).id < self.next_id
        &&& forall|i: int, j: int|
            0 <= i < j < self.rows.len() ==> (#[trigger] self.rows[i]).id < (
            #[trigger] self.rows[j]).id
    }

    /// Whether a record is stored under `id`.
    pub open spec fn has(self, id: i64) -> bool {
        exists|i: int| 0 <= i < self.rows.len() && (#[trigger] self.rows[i]).id == id
    }

    /// The place of the record under `id`.
    pub open spec fn index_of(self, id: i64) -> int {
        choose|i: int| 0 <= i < self.rows.len() && (#[trigger] self.rows[i]).id == id
    }

    /// The record under `id`, if there is one.
    pub open spec fn lookup(self, id: i64) -> Option<TodoModel> {
        if self.has(id) {
            Some(self.rows[self.index_of(id)])
        } else {
            None
        }
    }

    /// The store after a record with `text` was made.
    pub open spec fn after_save(self, text: Seq<char>) -> MemoryModel {
        MemoryModel {
            rows: self.rows.push(TodoModel { id: self.next_id as i64, text }),
            next_id: self.next_id + 1,
        }
    }

    /// The store after the record under `id` was removed.
    pub open spec fn after_delete(self, id: i64) -> MemoryModel {
        MemoryModel { rows: self.rows.remove(self.index_of(id)), next_id: self.next_id }
    }

    /// The store after the record under `id` got the text `text`.
    pub open spec fn after_update(self, id: i64, text: Seq<char>) -> MemoryModel {
        MemoryModel {
            rows: self.rows.update(self.index_of(id), TodoModel { id, text }),
            next_id: self.next_id,
        }
    }
}

/// A record that was made is found: in a store that has an identifier left
/// to give, the record made with `text` lies under the identifier it got,
/// with that text, and every record that was there before is still found
/// as it was.
pub proof fn lemma_saved_is_found(m: MemoryModel, text: Seq<char>, other: i64)
    requires
        m.wf(),
        m.next_id < i64::MAX,
    ensures
        m.after_save(text).wf(),
        m.after_save(text).lookup(m.next_id as i64) == Some(
            TodoModel { id: m.next_id as i64, text },
        ),
        other != m.next_id ==> m.after_save(text).lookup(other) == m.lookup(other),
{
    let after = m.after_save(text);
    assert(after.rows[m.rows.len() as int].id == m.next_id);
    if other != m.next_id && m.has(other) {
        let i = m.index_of(other);
        assert(after.rows[i] == m.rows[i]);
    }
}

/// A record service in memory.
pub struct MemoryDao {
    rows: Vec<Todo>,
    next_id: i64,
}

impl View for MemoryDao {
    type V = MemoryModel;

    closed spec fn view(&self) -> MemoryModel {
        MemoryModel {
            rows: Seq::new(self.rows@.len(), |i: int| self.rows@[i]@),
            next_id: self.next_id as int,
        }
    }
}

impl MemoryDao {
    #[verifier::type_invariant]
    pub open spec fn wf(&self) -> bool {
        self@.wf()
    }

    /// A service without records.  Its first record gets the identifier
    /// one.
    pub fn new() -> (d: MemoryDao)
        ensures
            d@.rows.len() == 0,
            d@.next_id == 1,
            d@.wf(),
    {
        MemoryDao { rows: Vec::new(), next_id: 1 }
    }

    /// A service without records whose first record gets the identifier
    /// `first`, or one if `first` is less than one.
    pub fn starting_at(first: i64) -> (d: MemoryDao)
        ensures
            d@.rows.len() == 0,
            d@.next_id == if first < 1 {
                1
            } else {
                first as int
            },
            d@.wf(),
    {
        MemoryDao { rows: Vec::new(), next_id: if first < 1 {
            1
        } else {
            first
        } }
    }

    /// Hands out the records and leaves none behind, for a change that the
    /// caller makes before it puts them back.
    fn take_rows(&mut self) -> (rows: Vec<Todo>)
        ensures
            rows == old(self).rows,
            final(self).rows@.len() == 0,
            final(self).next_id == old(self).next_id,
    {
        proof {
            use_type_invariant(&*self);
        }
        let mut rows: Vec<Todo> = Vec::new();
        std::mem::swap(&mut self.rows, &mut rows);
        rows
    }

    fn position(&self, id: i64) -> (at: Option<usize>)
        ensures
            match at {
                Some(i) => self@.has(id) && i == self@.index_of(id) && i < self.rows@.len(),
                None => !self@.has(id),
            },
    {
        proof {
            use_type_invariant(self);
        }
        let mut i: usize = 0;
        while i < self.rows.len()
            invariant
                self@.wf(),
                i <= self.rows@.len(),
                forall|j: int| 0 <= j < i ==> (#[trigger] self@.rows[j]).id != id,
            decreases self.rows@.len() - i,
        {
            if self.rows[i].id == id {
                assert(self@.rows[i as int].id == id);
                return Some(i);
            }
            i = i + 1;
        }
        None
    }
}

impl Dao<Todo> for MemoryDao {
    fn get_all(&self) -> (all: Vec<Todo>)
        ensures
            all@.len() == self@.rows.len(),
            forall|i: int| 0 <= i < all@.len() ==> (#[trigger] all@[i])@ == self@.rows[i],
    {
        let mut all: Vec<Todo> = Vec::new();
        let mut i: usize = 0;
        while i < self.rows.len()
            invariant
                i <= self.rows@.len(),
                all@.len() == i,
                forall|j: int| 0 <= j < i ==> (#[trigger] all@[j])@ == self@.rows[j],
            decreases self.rows@.len() - i,
        {
            all.push(self.rows[i].duplicate());
            i = i + 1;
        }
        all
    }

    fn get_by_id(&self, id: i64) -> (found: Option<Todo>)
        ensures
            match found {
                Some(t) => self@.lookup(id) == Some(t@),
                None => self@.lookup(id) is None,
            },
    {
        match self.position(id) {
            Some(i) => Some(self.rows[i].duplicate()),
            None => None,
        }
    }

    fn save(&mut self, data: Todo) -> (saved: Result<Todo, StoreError>)
        ensures
            match saved {
                Ok(t) => {
                    &&& old(self)@.next_id < i64::MAX
                    &&& t@ == (TodoModel { id: old(self)@.next_id as i64, text: data@.text })
                    &&& final(self)@ == old(self)@.after_save(data@.text)
                },
                Err(_) => old(self)@.next_id == i64::MAX && final(self)@ == old(self)@,
            },
    {
        proof {
            use_type_invariant(&*self);
        }
        if self.next_id == i64::MAX {
            return Err(StoreError { message: "no identifier is left".to_owned() });
        }
        let id = self.next_id;
        let row = Todo { id, text: data.text };
        let saved = row.duplicate();
        let mut rows = self.take_rows();
        rows.push(row);
        self.next_id = id + 1;
        proof {
            let before = old(self)@.rows;
            assert forall|i: int| 0 <= i < rows@.len() implies 1 <= (#[trigger] rows@[i])@.id
                <= id by {
                if i < before.len() {
                    assert(rows@[i]@ == before[i]);
                }
            }
            assert forall|i: int, j: int| 0 <= i < j < rows@.len() implies (#[trigger] rows@[i])@.id
                < (#[trigger] rows@[j])@.id by {
                assert(rows@[i]@ == before[i]);
                if j < before.len() {
                    assert(rows@[j]@ == before[j]);
                }
            }
        }
        self.rows = rows;
        assert(self@.rows =~= old(self)@.rows.push(saved@));
        Ok(saved)
    }

    fn delete(&mut self, id: i64) -> (removed: Result<Todo, StoreError>)
        ensures
            match removed {
                Ok(t) => {
                    &&& old(self)@.lookup(id) == Some(t@)
                    &&& final(self)@ == old(self)@.after_delete(id)
                },
                Err(_) => old(self)@.lookup(id) is None && final(self)@ == old(self)@,
            },
    {
        proof {
            use_type_invariant(&*self);
        }
        match self.position(id) {
            Some(i) => {
                let mut rows = self.take_rows();
                let row = rows.remove(i);
                proof {
                    let before = old(self)@.rows;
                    assert forall|j: int| 0 <= j < rows@.len() implies (#[trigger] rows@[j])@
                        == before[if j < i { j } else { j + 1 }] by {}
                }
                self.rows = rows;
                assert(self@.rows =~= old(self)@.rows.remove(i as int));
                Ok(row)
            },
            None => Err(StoreError { message: "no record has this identifier".to_owned() }),
        }
    }

    fn update(&mut self, id: i64, data: Todo) -> (updated: Result<Todo, StoreError>)
        ensures
            match updated {
                Ok(t) => {
                    &&& old(self)@.has(id)
                    &&& t@ == (TodoModel { id, text: data@.text })
                    &&& final(self)@ == old(self)@.after_update(id, data@.text)
                },
                Err(_) => !old(self)@.has(id) && final(self)@ == old(self)@,
            },
    {
        proof {
            use_type_invariant(&*self);
        }
        match self.position(id) {
            Some(i) => {
                let row = Todo { id, text: data.text };
                let updated = row.duplicate();
                let mut rows = self.take_rows();
                rows.set(i, row);
                proof {
                    let before = old(self)@.rows;
                    assert forall|j: int| 0 <= j < rows@.len() implies (#[trigger] rows@[j])@.id
                        == before[j].id by {}
                }
                self.rows = rows;
                assert(self@.rows =~= old(self)@.rows.update(i as int, updated@));
                Ok(updated)
            },
            None => Err(StoreError { message: "no record has this identifier".to_owned() }),
        }
    }
}

} // verus!
