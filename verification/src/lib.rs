//! Verified core of a small book-catalog CRUD service.
//!
//! The crate models one database collection of `{title, author}` documents
//! and proves exact contracts for the five operations the service offers:
//! list all documents, find by author substring, insert, replace by
//! identifier, and delete by title.  The byte-level codecs (identifier
//! hex strings, JSON response bodies) and the route layer's decision
//! logic are verified as well; the HTTP server and the real database
//! driver live outside the library.

pub mod data;
pub mod laws;
pub mod oid;
pub mod routes;
pub mod store;
pub mod text;
