//! The record the service exchanges over HTTP and stores as a document.

use vstd::prelude::*;

verus! {

/// A catalog record: a title and an author, both required strings.
/// The storage engine adds an identifier when the record is inserted;
/// the record itself never carries one.
pub struct Data {
    pub title: String,
    pub author: String,
}

impl Data {
    /// Builds a record from its two fields.
    pub fn new(title: String, author: String) -> (d: Data)
        ensures
            d.title@ == title@,
            d.author@ == author@,
    {
        Data { title, author }
    }
}

impl Clone for Data {
    fn clone(&self) -> (d: Self)
        ensures
            d == *self,
    {
        Data { title: self.title.clone(), author: self.author.clone() }
    }
}

} // verus!
