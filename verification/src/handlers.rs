//! The request handlers. Each one parses and validates its input, performs a
//! single query-layer call, and maps the outcome to a result or to one of the
//! three error kinds: a malformed path segment is a validation error raised
//! before storage is touched, a missing row is not-found, and only a
//! storage-side fault is internal.

use vstd::prelude::*;

use crate::errors::UserError;
use crate::models::{Book, NewBook};
use crate::store::{contains_id, BookStore, LIST_LIMIT};
use crate::validate::{int_literal_value, is_i32_literal, parse_book_id};

verus! {

/// List the books: at most `LIST_LIMIT` rows, in storage order. An empty
/// table yields an empty list; listing never fails.
pub fn get_books(store: &BookStore) -> (r: Vec<Book>)
    ensures
        r@.len() <= LIST_LIMIT,
        r@.len() == if store@.len() <= LIST_LIMIT {
            store@.len()
        } else {
            LIST_LIMIT as nat
        },
        forall|i: int| 0 <= i < r@.len() ==> (#[trigger] r@[i])@ == store@[i],
{
    store.list()
}

/// Get one book by its raw path segment. A malformed segment is rejected
/// before storage is read; a well-formed id that no row carries is
/// not-found — never an internal error.
pub fn get_book(store: &BookStore, seg: &[u8]) -> (r: Result<Book, UserError>)
    ensures
        !is_i32_literal(seg@) ==> r == Err::<Book, UserError>(UserError::ValidationError),
        is_i32_literal(seg@) ==> match r {
            Ok(b) => store@.contains(b@) && b@.id == int_literal_value(seg@),
            Err(e) => {
                &&& e == UserError::NotFoundError
                &&& !contains_id(store@, int_literal_value(seg@))
            },
        },
{
    let book_id = match parse_book_id(seg) {
        Ok(v) => v,
        Err(e) => {
            return Err(e);
        },
    };
    match store.get(book_id) {
        Some(b) => Ok(b),
        None => Err(UserError::NotFoundError),
    }
}

/// Create a book from the payload: storage assigns the next id, appends the
/// row, and the created record is returned. Only id-space exhaustion fails,
/// as an internal error, and then the table is untouched.
pub fn create_book(store: &mut BookStore, payload: NewBook) -> (r: Result<Book, UserError>)
    requires
        old(store).wf(),
    ensures
        final(store).wf(),
        if old(store).spec_next_id() < i32::MAX {
            &&& r is Ok
            &&& r->Ok_0@ == payload.with_id(old(store).spec_next_id())
            &&& !contains_id(old(store)@, old(store).spec_next_id())
            &&& final(store)@ == old(store)@.push(payload.with_id(old(store).spec_next_id()))
            &&& final(store).spec_next_id() == old(store).spec_next_id() + 1
        } else {
            &&& r == Err::<Book, UserError>(UserError::InternalError)
            &&& final(store)@ == old(store)@
            &&& final(store).spec_next_id() == old(store).spec_next_id()
        },
{
    store.create(payload)
}

/// Update one book by its raw path segment. A malformed segment is rejected
/// before storage is touched. On a present id only the row's name and author
/// change — its id and every other row are untouched — and the updated record
/// comes back; on an absent id nothing changes and the outcome is
/// not-found — never an internal error.
pub fn update_book(store: &mut BookStore, seg: &[u8], payload: NewBook) -> (r: Result<
    Book,
    UserError,
>)
    requires
        old(store).wf(),
    ensures
        final(store).wf(),
        final(store).spec_next_id() == old(store).spec_next_id(),
        !is_i32_literal(seg@) ==> {
            &&& r == Err::<Book, UserError>(UserError::ValidationError)
            &&& final(store)@ == old(store)@
        },
        is_i32_literal(seg@) ==> {
            let id = int_literal_value(seg@);
            match r {
                Ok(b) => {
                    &&& contains_id(old(store)@, id)
                    &&& b@ == payload.with_id(id)
                    &&& final(store)@.len() == old(store)@.len()
                    &&& forall|i: int| 0 <= i < old(store)@.len() ==> #[trigger] final(store)@[i]
                        == (if old(store)@[i].id == id {
                        payload.with_id(id)
                    } else {
                        old(store)@[i]
                    })
                },
                Err(e) => {
                    &&& e == UserError::NotFoundError
                    &&& !contains_id(old(store)@, id)
                    &&& final(store)@ == old(store)@
                },
            }
        },
{
    let book_id = match parse_book_id(seg) {
        Ok(v) => v,
        Err(e) => {
            return Err(e);
        },
    };
    match store.update(book_id, payload) {
        Some(b) => Ok(b),
        None => Err(UserError::NotFoundError),
    }
}

/// Delete one book by its raw path segment. A malformed segment is rejected
/// before storage is touched. On a present id the row is removed and one
/// affected row is reported; on an absent id — in particular an id already
/// deleted — nothing changes and the outcome is not-found, never an internal
/// error. Afterwards no row carries the id.
pub fn delete_book(store: &mut BookStore, seg: &[u8]) -> (r: Result<usize, UserError>)
    requires
        old(store).wf(),
    ensures
        final(store).wf(),
        final(store).spec_next_id() == old(store).spec_next_id(),
        !is_i32_literal(seg@) ==> {
            &&& r == Err::<usize, UserError>(UserError::ValidationError)
            &&& final(store)@ == old(store)@
        },
        is_i32_literal(seg@) ==> {
            let id = int_literal_value(seg@);
            &&& !contains_id(final(store)@, id)
            &&& match r {
                Ok(count) => {
                    &&& count == 1
                    &&& contains_id(old(store)@, id)
                    &&& exists|k: int|
                        0 <= k < old(store)@.len() && (#[trigger] old(store)@[k]).id == id
                            && final(store)@ == old(store)@.remove(k)
                },
                Err(e) => {
                    &&& e == UserError::NotFoundError
                    &&& !contains_id(old(store)@, id)
                    &&& final(store)@ == old(store)@
                },
            }
        },
{
    let book_id = match parse_book_id(seg) {
        Ok(v) => v,
        Err(e) => {
            return Err(e);
        },
    };
    let count = store.delete(book_id);
    if count == 0 {
        Err(UserError::NotFoundError)
    } else {
        Ok(count)
    }
}

} // verus!
