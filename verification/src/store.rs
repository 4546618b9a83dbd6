//! An in-memory model of the query layer: the book table held as a sequence
//! of rows in storage order, with the five single-statement operations — list
//! with a fixed row limit, get by id, insert with a storage-assigned id,
//! update by id, delete by id.

use vstd::prelude::*;

use crate::errors::UserError;
use crate::models::{Book, BookView, NewBook};

verus! {

/// No two rows carry the same id.
pub open spec fn ids_unique(s: Seq<BookView>) -> bool {
    forall|i: int, j: int| 0 <= i < j < s.len() ==> (#[trigger] s[i]).id != (#[trigger] s[j]).id
}

/// Some row carries the id.
pub open spec fn contains_id(s: Seq<BookView>, id: int) -> bool {
    exists|i: int| 0 <= i < s.len() && (#[trigger] s[i]).id == id
}

/// At most this many rows come back from a list.
pub const LIST_LIMIT: usize = 100;

/// The book table: rows in storage order, and the id that the next created
/// row will be assigned.
pub struct BookStore {
    books: Vec<Book>,
    next_id: i32,
}

impl BookStore {
    /// The rows, in storage order.
    pub closed spec fn view(&self) -> Seq<BookView> {
        self.books@.map_values(|b: Book| b@)
    }

    /// The id that the next created row will receive.
    pub closed spec fn spec_next_id(&self) -> int {
        self.next_id as int
    }

    /// Well-formed storage: ids are unique, positive, and all below the next
    /// id to assign, so a created row can never collide with an existing one.
    pub open spec fn wf(&self) -> bool {
        &&& 1 <= self.spec_next_id() <= i32::MAX
        &&& ids_unique(self@)
        &&& forall|i: int| 0 <= i < self@.len() ==> 1 <= (#[trigger] self@[i]).id < self.spec_next_id()
    }

    /// An empty table; ids start at one.
    pub fn new() -> (s: BookStore)
        ensures
            s.wf(),
            s@ == Seq::<BookView>::empty(),
            s.spec_next_id() == 1,
    {
        let s = BookStore { books: Vec::new(), next_id: 1 };
        proof {
            assert(s@ =~= Seq::<BookView>::empty());
        }
        s
    }

    /// An empty table whose id counter is already at `next`, as a table looks
    /// after earlier rows were created and deleted.
    pub fn with_next_id(next: i32) -> (s: BookStore)
        requires
            next >= 1,
        ensures
            s.wf(),
            s@ == Seq::<BookView>::empty(),
            s.spec_next_id() == next as int,
    {
        let s = BookStore { books: Vec::new(), next_id: next };
        proof {
            assert(s@ =~= Seq::<BookView>::empty());
        }
        s
    }

    /// List: the first rows of the table in storage order, never more than
    /// `LIST_LIMIT` of them. An empty table gives an empty list, not an error.
    pub fn list(&self) -> (r: Vec<Book>)
        ensures
            r@.len() == if self@.len() <= LIST_LIMIT { self@.len() } else { LIST_LIMIT as nat },
            forall|i: int| 0 <= i < r@.len() ==> (#[trigger] r@[i])@ == self@[i],
    {
        let n = self.books.len();
        let count = if n <= LIST_LIMIT { n } else { LIST_LIMIT };
        let mut r: Vec<Book> = Vec::new();
        let mut i: usize = 0;
        while i < count
            invariant
                0 <= i <= count,
                count == if self@.len() <= LIST_LIMIT { self@.len() } else { LIST_LIMIT as nat },
                count <= self.books@.len(),
                r@.len() == i,
                forall|j: int| 0 <= j < i ==> (#[trigger] r@[j])@ == self@[j],
            decreases count - i,
        {
            r.push(self.books[i].clone());
            i = i + 1;
        }
        r
    }

    /// Get by id: the row carrying the id, or nothing when no row does.
    pub fn get(&self, book_id: i32) -> (r: Option<Book>)
        ensures
            match r {
                Some(b) => self@.contains(b@) && b@.id == book_id as int,
                None => !contains_id(self@, book_id as int),
            },
    {
        let n = self.books.len();
        let mut i: usize = 0;
        while i < n
            invariant
                0 <= i <= n,
                n == self.books@.len(),
                forall|j: int| 0 <= j < i ==> (#[trigger] self@[j]).id != book_id as int,
            decreases n - i,
        {
            if self.books[i].id == book_id {
                let b = self.books[i].clone();
                assert(self@[i as int] == b@);
                return Some(b);
            }
            i = i + 1;
        }
        None
    }

    /// Create: assign the next id to the payload, append the row, and return
    /// it. Fails with an internal error only when the id space is exhausted,
    /// in which case the table is untouched.
    pub fn create(&mut self, new_book: NewBook) -> (r: Result<Book, UserError>)
        requires
            old(self).wf(),
        ensures
            final(self).wf(),
            if old(self).spec_next_id() < i32::MAX {
                &&& r is Ok
                &&& r->Ok_0@ == new_book.with_id(old(self).spec_next_id())
                &&& !contains_id(old(self)@, old(self).spec_next_id())
                &&& final(self)@ == old(self)@.push(new_book.with_id(old(self).spec_next_id()))
                &&& final(self).spec_next_id() == old(self).spec_next_id() + 1
            } else {
                &&& r == Err::<Book, UserError>(UserError::InternalError)
                &&& final(self)@ == old(self)@
                &&& final(self).spec_next_id() == old(self).spec_next_id()
            },
    {
        if self.next_id == i32::MAX {
            return Err(UserError::InternalError);
        }
        let id = self.next_id;
        let book = Book { id: id, name: new_book.name, author: new_book.author };
        let result = book.clone();
        self.books.push(book);
        self.next_id = id + 1;
        proof {
            assert(self@ =~= old(self)@.push(result@));
        }
        Ok(result)
    }

    /// Update by id: when a row carries the id, replace its name and author
    /// with the payload's — the id itself and every other row are untouched —
    /// and return the updated row. When no row does, change nothing and
    /// return nothing.
    pub fn update(&mut self, book_id: i32, payload: NewBook) -> (r: Option<Book>)
        requires
            old(self).wf(),
        ensures
            final(self).wf(),
            final(self).spec_next_id() == old(self).spec_next_id(),
            match r {
                Some(b) => {
                    &&& contains_id(old(self)@, book_id as int)
                    &&& b@ == payload.with_id(book_id as int)
                    &&& final(self)@.len() == old(self)@.len()
                    &&& forall|i: int| 0 <= i < old(self)@.len() ==> #[trigger] final(self)@[i] == (
                        if old(self)@[i].id == book_id as int {
                            payload.with_id(book_id as int)
                        } else {
                            old(self)@[i]
                        })
                },
                None => {
                    &&& !contains_id(old(self)@, book_id as int)
                    &&& final(self)@ == old(self)@
                },
            },
    {
        let n = self.books.len();
        let mut i: usize = 0;
        while i < n
            invariant
                *self == *old(self),
                old(self).wf(),
                0 <= i <= n,
                n == self.books@.len(),
                forall|j: int| 0 <= j < i ==> (#[trigger] self@[j]).id != book_id as int,
            decreases n - i,
        {
            if self.books[i].id == book_id {
                let updated = Book { id: book_id, name: payload.name, author: payload.author };
                let result = updated.clone();
                self.books[i] = updated;
                proof {
                    assert(self@ =~= old(self)@.update(i as int, result@));
                    assert forall|k: int| 0 <= k < old(self)@.len() implies #[trigger] self@[k] == (
                        if old(self)@[k].id == book_id as int {
                            payload.with_id(book_id as int)
                        } else {
                            old(self)@[k]
                        }) by {
                        if k != i && old(self)@[k].id == book_id as int {
                            assert(old(self)@[i as int].id == old(self)@[k].id);
                        }
                    }
                }
                return Some(result);
            }
            i = i + 1;
        }
        None
    }

    /// Delete by id: remove the row carrying the id and report one affected
    /// row; when no row does, change nothing and report zero. Afterwards no
    /// row carries the id, so a repeated delete reports zero.
    pub fn delete(&mut self, book_id: i32) -> (count: usize)
        requires
            old(self).wf(),
        ensures
            final(self).wf(),
            final(self).spec_next_id() == old(self).spec_next_id(),
            !contains_id(final(self)@, book_id as int),
            if contains_id(old(self)@, book_id as int) {
                &&& count == 1
                &&& exists|k: int|
                    0 <= k < old(self)@.len() && (#[trigger] old(self)@[k]).id == book_id as int
                        && final(self)@ == old(self)@.remove(k)
            } else {
                &&& count == 0
                &&& final(self)@ == old(self)@
            },
    {
        let n = self.books.len();
        let mut i: usize = 0;
        while i < n
            invariant
                *self == *old(self),
                old(self).wf(),
                0 <= i <= n,
                n == self.books@.len(),
                forall|j: int| 0 <= j < i ==> (#[trigger] self@[j]).id != book_id as int,
            decreases n - i,
        {
            if self.books[i].id == book_id {
                self.books.remove(i);
                proof {
                    assert(self@ =~= old(self)@.remove(i as int));
                    assert({
                        let k: int = i as int;
                        0 <= k && k < old(self)@.len() && (old(self)@[k]).id == book_id as int
                            && self@ == old(self)@.remove(k)
                    });
                    assert forall|k: int| 0 <= k < self@.len() implies (#[trigger] self@[k]).id
                        != book_id as int by {
                        if k < i {
                            assert(self@[k] == old(self)@[k]);
                            if old(self)@[k].id == book_id as int {
                                assert(old(self)@[i as int].id == old(self)@[k].id);
                            }
                        } else {
                            assert(self@[k] == old(self)@[k + 1]);
                            if old(self)@[k + 1].id == book_id as int {
                                assert(old(self)@[i as int].id == old(self)@[k + 1].id);
                            }
                        }
                    }
                }
                return 1;
            }
            i = i + 1;
        }
        0
    }
}

/// Law: a create followed by a get on the returned id yields that very
/// record. A create appends a row carrying a fresh id; any row of the new
/// table that carries this id — in particular whatever a get returns — is
/// exactly the created one, the payload's name and author under the newly
/// assigned id.
pub proof fn lemma_create_then_get(s0: Seq<BookView>, created: BookView, found: BookView)
    requires
        !contains_id(s0, created.id),
        s0.push(created).contains(found),
        found.id == created.id,
    ensures
        contains_id(s0.push(created), created.id),
        found == created,
{
    let s1 = s0.push(created);
    assert(s1[s0.len() as int] == created);
    let j = choose|j: int| 0 <= j < s1.len() && s1[j] == found;
    if j < s0.len() {
        assert(s0[j] == found);
        assert(contains_id(s0, created.id));
    }
}

/// Law: delete is idempotent in observable effect. Removing the one row that
/// carries an id leaves a table in which no row carries it, so a second
/// delete of the same id finds nothing and reports not-found rather than
/// failing.
pub proof fn lemma_delete_idempotent(s0: Seq<BookView>, k: int)
    requires
        ids_unique(s0),
        0 <= k < s0.len(),
    ensures
        !contains_id(s0.remove(k), s0[k].id),
{
    let s1 = s0.remove(k);
    assert forall|i: int| 0 <= i < s1.len() implies (#[trigger] s1[i]).id != s0[k].id by {
        if i < k {
            assert(s1[i] == s0[i]);
        } else {
            assert(s1[i] == s0[i + 1]);
        }
    }
}

} // verus!
