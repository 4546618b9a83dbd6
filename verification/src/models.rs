//! The entity model: a persisted book row and the transient payload that a
//! create or update request carries.

use vstd::prelude::*;

verus! {

/// The mathematical value of a persisted row: its generated id and its two
/// required text attributes.
pub ghost struct BookView {
    pub id: int,
    pub name: Seq<char>,
    pub author: Seq<char>,
}

/// A persisted book row. `id` is assigned by storage, unique among rows, and
/// immutable; `name` and `author` are required text.
#[derive(Debug)]
pub struct Book {
    pub id: i32,
    pub name: String,
    pub author: String,
}

impl View for Book {
    type V = BookView;

    open spec fn view(&self) -> BookView {
        BookView { id: self.id as int, name: self.name@, author: self.author@ }
    }
}

impl Clone for Book {
    /// A clone carries the same row value.
    fn clone(&self) -> (r: Book)
        ensures
            r@ == self@,
    {
        Book { id: self.id, name: self.name.clone(), author: self.author.clone() }
    }
}

/// The mathematical value of a creation or update payload.
pub ghost struct NewBookView {
    pub name: Seq<char>,
    pub author: Seq<char>,
}

/// The payload of a create or update request: no id, which is assigned by
/// storage on create and supplied through the path on update.
#[derive(Debug)]
pub struct NewBook {
    pub name: String,
    pub author: String,
}

impl View for NewBook {
    type V = NewBookView;

    open spec fn view(&self) -> NewBookView {
        NewBookView { name: self.name@, author: self.author@ }
    }
}

impl Clone for NewBook {
    /// A clone carries the same payload value.
    fn clone(&self) -> (r: NewBook)
        ensures
            r@ == self@,
    {
        NewBook { name: self.name.clone(), author: self.author.clone() }
    }
}

impl NewBook {
    /// The row value that this payload yields once storage assigns it `id`.
    pub open spec fn with_id(self, id: int) -> BookView {
        BookView { id: id, name: self.name@, author: self.author@ }
    }
}

} // verus!
