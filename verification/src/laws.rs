//! Laws the collection model obeys, proved once for all inputs.
//!
//! Each law is stated over the spec-level transition functions that the
//! executable operations' contracts refer to, so it carries over to any
//! run of those operations.

use crate::oid::{
    hex_num, id_hex_bytes, lemma_id_round_trip, oid_prefix_zero, valid_oid_bytes,
};
use crate::store::{
    DocModel, author_pred, first_title_match, has_id, lemma_first_title_match, lookup,
    spec_delete, spec_deleted_count, spec_find, spec_insert, spec_modified_count, spec_update,
};
use crate::text::contains_seq;
use vstd::prelude::*;
use vstd::utf8::encode_utf8;

verus! {

/// An inserted record appears in a subsequent listing: the new document
/// carries exactly the record's title and author.
pub proof fn lemma_insert_then_listed(
    docs: Seq<DocModel>,
    id: u64,
    title: Seq<char>,
    author: Seq<char>,
)
    ensures
        ({
            let listed = spec_insert(docs, id, title, author);
            exists|i: int|
                0 <= i < listed.len() && (#[trigger] listed[i]).title == title && listed[i].author
                    == author
        }),
{
    let listed = spec_insert(docs, id, title, author);
    assert(listed[docs.len() as int].title == title);
}

proof fn lemma_lookup_last(docs: Seq<DocModel>, id: u64)
    requires
        docs.len() > 0,
        docs.last().id == id,
        forall|k: int| 0 <= k < docs.len() - 1 ==> (#[trigger] docs[k]).id != id,
    ensures
        lookup(docs, id) == Some(docs.last()),
    decreases docs.len(),
{
    if docs.len() > 1 {
        let rest = docs.drop_first();
        assert(forall|k: int| 0 <= k < rest.len() - 1 ==> #[trigger] rest[k] == docs[k + 1]);
        assert(rest.last() == docs.last());
        lemma_lookup_last(rest, id);
    }
}

/// After inserting a record and then replacing it through the identifier
/// returned at insertion, the document under that identifier carries the
/// replacement's fields, not the original's.
pub proof fn lemma_update_after_insert(
    docs: Seq<DocModel>,
    id: u64,
    title1: Seq<char>,
    author1: Seq<char>,
    title2: Seq<char>,
    author2: Seq<char>,
)
    requires
        !has_id(docs, id),
    ensures
        ({
            let after = spec_update(spec_insert(docs, id, title1, author1), id, title2, author2);
            lookup(after, id) == Some(DocModel { id, title: title2, author: author2 })
        }),
{
    let inserted = spec_insert(docs, id, title1, author1);
    let after = spec_update(inserted, id, title2, author2);
    assert forall|k: int| 0 <= k < after.len() - 1 implies (#[trigger] after[k]).id != id by {
        assert(inserted[k] == docs[k]);
        assert(docs[k].id != id);
    }
    assert(after.last() == DocModel { id, title: title2, author: author2 });
    lemma_lookup_last(after, id);
}

/// The identifier answered at insertion names the inserted document: its
/// string encoding is well formed, decodes back to the same identifier,
/// and a replacement through it touches exactly one document.
pub proof fn lemma_inserted_id_round_trips(
    docs: Seq<DocModel>,
    id: u64,
    title: Seq<char>,
    author: Seq<char>,
)
    requires
        !has_id(docs, id),
    ensures
        valid_oid_bytes(id_hex_bytes(id)),
        oid_prefix_zero(id_hex_bytes(id)),
        hex_num(id_hex_bytes(id).skip(8)) == id as nat,
        spec_modified_count(spec_insert(docs, id, title, author), id) == 1,
{
    lemma_id_round_trip(id);
    let inserted = spec_insert(docs, id, title, author);
    assert(inserted[docs.len() as int].id == id);
}

/// Replacing by an identifier that no document carries modifies nothing:
/// the collection is unchanged and the reported count is zero.
pub proof fn lemma_update_absent_id(
    docs: Seq<DocModel>,
    id: u64,
    title: Seq<char>,
    author: Seq<char>,
)
    requires
        !has_id(docs, id),
    ensures
        spec_update(docs, id, title, author) == docs,
        spec_modified_count(docs, id) == 0,
{
    let after = spec_update(docs, id, title, author);
    assert forall|k: int| 0 <= k < docs.len() implies #[trigger] after[k] == docs[k] by {
        assert(docs[k].id != id);
    }
    assert(after =~= docs);
}

/// Exactly one document carries the title.
pub open spec fn exactly_one_title(docs: Seq<DocModel>, title: Seq<char>) -> bool {
    exists|i: int|
        0 <= i < docs.len() && (#[trigger] docs[i]).title == title && (forall|j: int|
            0 <= j < docs.len() && j != i ==> (#[trigger] docs[j]).title != title)
}

/// Deletion removes at most one document, so when exactly one document
/// carries a title, deleting by that title twice in a row removes one
/// document and then none, leaving the collection alone the second time.
pub proof fn lemma_delete_twice(docs: Seq<DocModel>, title: Seq<char>)
    requires
        exactly_one_title(docs, title),
    ensures
        spec_deleted_count(docs, title) == 1,
        spec_delete(docs, title).len() == docs.len() - 1,
        spec_deleted_count(spec_delete(docs, title), title) == 0,
        spec_delete(spec_delete(docs, title), title) == spec_delete(docs, title),
{
    let i = choose|i: int|
        0 <= i < docs.len() && (#[trigger] docs[i]).title == title && (forall|j: int|
            0 <= j < docs.len() && j != i ==> (#[trigger] docs[j]).title != title);
    lemma_first_title_match(docs, title);
    let fm = first_title_match(docs, title);
    assert(fm != -1);
    assert(fm == i) by {
        if fm != i {
            assert(docs[fm].title != title);
        }
    }
    let rest = spec_delete(docs, title);
    assert(rest == docs.remove(i));
    assert forall|k: int| 0 <= k < rest.len() implies (#[trigger] rest[k]).title != title by {
        if k < i {
            assert(rest[k] == docs[k]);
        } else {
            assert(rest[k] == docs[k + 1]);
        }
    }
    lemma_first_title_match(rest, title);
    assert(first_title_match(rest, title) == -1);
}

/// When no stored author contains the pattern, the find-by-author query
/// returns the empty sequence.
pub proof fn lemma_find_no_match_is_empty(docs: Seq<DocModel>, pattern: Seq<u8>)
    requires
        forall|k: int|
            0 <= k < docs.len() ==> !contains_seq(
                encode_utf8((#[trigger] docs[k]).author),
                pattern,
            ),
    ensures
        spec_find(docs, pattern) == Seq::<DocModel>::empty(),
{
    let pred = author_pred(pattern);
    assert forall|k: int| 0 <= k < docs.len() implies !pred(docs[k]) by {
        assert(!contains_seq(encode_utf8(docs[k].author), pattern));
    }
    docs.lemma_all_neg_filter_empty(pred);
    assert(spec_find(docs, pattern) =~= Seq::<DocModel>::empty());
}

} // verus!
