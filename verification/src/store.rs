//! An exact model of the document collection.
//!
//! The collection holds documents `{id, title, author}`, where the
//! identifier is assigned at insertion and never repeats.  The five
//! operations of the data-access layer are verified against spec-level
//! transition functions (`spec_insert`, `spec_update`, `spec_delete`,
//! `spec_find`), so that laws relating several operations can be stated
//! and proved over those functions alone.

use crate::data::Data;
use crate::text::contains_seq;
use vstd::prelude::*;
use vstd::string::StringSliceAdditionalSpecFns;
use vstd::utf8::encode_utf8;

verus! {

/// Mathematical shape of one stored document.
#[verifier::ext_equal]
pub ghost struct DocModel {
    pub id: u64,
    pub title: Seq<char>,
    pub author: Seq<char>,
}

/// One stored document: the record's two fields plus the identifier the
/// collection assigned to it.
pub struct StoredDoc {
    pub id: u64,
    pub title: String,
    pub author: String,
}

impl View for StoredDoc {
    type V = DocModel;

    open spec fn view(&self) -> DocModel {
        DocModel { id: self.id, title: self.title@, author: self.author@ }
    }
}

impl Clone for StoredDoc {
    fn clone(&self) -> (d: Self)
        ensures
            d == *self,
    {
        StoredDoc { id: self.id, title: self.title.clone(), author: self.author.clone() }
    }
}

/// The model of a run of stored documents.
pub open spec fn docs_view(s: Seq<StoredDoc>) -> Seq<DocModel> {
    s.map_values(|d: StoredDoc| d@)
}

/// Appending a document appends its model.
proof fn lemma_docs_view_push(s: Seq<StoredDoc>, d: StoredDoc)
    ensures
        docs_view(s.push(d)) == docs_view(s).push(d@),
{
    assert forall|k: int| 0 <= k < s.len() + 1 implies #[trigger] docs_view(s.push(d))[k]
        == docs_view(s).push(d@)[k] by {
        assert(docs_view(s.push(d))[k] == s.push(d)[k]@);
        if k < s.len() {
            assert(s.push(d)[k] == s[k]);
            assert(docs_view(s)[k] == s[k]@);
        }
    }
    assert(docs_view(s.push(d)) =~= docs_view(s).push(d@));
}

/// No two documents carry the same identifier.
pub open spec fn distinct_ids(docs: Seq<DocModel>) -> bool {
    forall|i: int, j: int|
        0 <= i < j < docs.len() ==> (#[trigger] docs[i]).id != (#[trigger] docs[j]).id
}

/// Some document carries identifier `id`.
pub open spec fn has_id(docs: Seq<DocModel>, id: u64) -> bool {
    exists|i: int| 0 <= i < docs.len() && (#[trigger] docs[i]).id == id
}

/// The document carrying identifier `id`, if any: what a fetch of that
/// identifier yields.
pub open spec fn lookup(docs: Seq<DocModel>, id: u64) -> Option<DocModel>
    decreases docs.len(),
{
    if docs.len() == 0 {
        None
    } else if docs[0].id == id {
        Some(docs[0])
    } else {
        lookup(docs.drop_first(), id)
    }
}

/// Insertion appends a fresh document.
pub open spec fn spec_insert(docs: Seq<DocModel>, id: u64, title: Seq<char>, author: Seq<char>) -> Seq<DocModel> {
    docs.push(DocModel { id, title, author })
}

/// Replacement by identifier: the document with `id`, if any, takes the
/// new fields; every other document is untouched.
pub open spec fn spec_update(docs: Seq<DocModel>, id: u64, title: Seq<char>, author: Seq<char>) -> Seq<DocModel> {
    docs.map_values(
        |d: DocModel| if d.id == id { DocModel { id, title, author } } else { d },
    )
}

/// How many documents a replacement by `id` touches: one if present,
/// none otherwise.
pub open spec fn spec_modified_count(docs: Seq<DocModel>, id: u64) -> u64 {
    if has_id(docs, id) { 1u64 } else { 0u64 }
}

/// Index of the first document whose title equals `title`, or -1.
pub open spec fn first_title_match(docs: Seq<DocModel>, title: Seq<char>) -> int
    decreases docs.len(),
{
    if docs.len() == 0 {
        -1
    } else if docs[0].title == title {
        0
    } else {
        let r = first_title_match(docs.drop_first(), title);
        if r < 0 {
            -1
        } else {
            r + 1
        }
    }
}

/// Deletion by title removes the first matching document, at most one.
pub open spec fn spec_delete(docs: Seq<DocModel>, title: Seq<char>) -> Seq<DocModel> {
    let i = first_title_match(docs, title);
    if i < 0 {
        docs
    } else {
        docs.remove(i)
    }
}

/// How many documents a deletion by `title` removes: one if any
/// matches, none otherwise.
pub open spec fn spec_deleted_count(docs: Seq<DocModel>, title: Seq<char>) -> u64 {
    if first_title_match(docs, title) < 0 { 0u64 } else { 1u64 }
}

/// The author field, in its UTF-8 encoding, contains `pattern` as a
/// substring.
pub open spec fn author_pred(pattern: Seq<u8>) -> spec_fn(DocModel) -> bool {
    |d: DocModel| contains_seq(encode_utf8(d.author), pattern)
}

/// The find-by-author query keeps exactly the documents whose author
/// contains the pattern, in collection order.
pub open spec fn spec_find(docs: Seq<DocModel>, pattern: Seq<u8>) -> Seq<DocModel> {
    docs.filter(author_pred(pattern))
}

/// What `first_title_match` names: -1 exactly when nothing matches, and
/// otherwise the first matching index.
pub proof fn lemma_first_title_match(docs: Seq<DocModel>, title: Seq<char>)
    ensures
        (first_title_match(docs, title) == -1 <==> (forall|k: int|
            0 <= k < docs.len() ==> (#[trigger] docs[k]).title != title)),
        first_title_match(docs, title) != -1 ==> {
            let i = first_title_match(docs, title);
            &&& 0 <= i < docs.len()
            &&& docs[i].title == title
            &&& forall|k: int| 0 <= k < i ==> (#[trigger] docs[k]).title != title
        },
    decreases docs.len(),
{
    if docs.len() > 0 && docs[0].title != title {
        lemma_first_title_match(docs.drop_first(), title);
        assert(forall|k: int|
            1 <= k < docs.len() ==> docs.drop_first()[k - 1] == #[trigger] docs[k]);
    }
}

/// The collection.  Documents live in insertion order; `next_id` is the
/// identifier the next insertion will take, larger than every
/// identifier already assigned.
pub struct Store {
    docs: Vec<StoredDoc>,
    next_id: u64,
}

impl View for Store {
    type V = Seq<DocModel>;

    closed spec fn view(&self) -> Seq<DocModel> {
        docs_view(self.docs@)
    }
}

impl Store {
    /// Internal invariant: identifiers are distinct and all below the
    /// counter for the next one.
    pub closed spec fn wf(&self) -> bool {
        &&& distinct_ids(self@)
        &&& forall|i: int| 0 <= i < self@.len() ==> (#[trigger] self@[i]).id < self.next_id
    }

    /// How many identifiers have been assigned so far.
    pub closed spec fn ids_assigned(&self) -> nat {
        self.next_id as nat
    }

    /// A well-formed collection never repeats an identifier.
    pub proof fn lemma_wf_distinct(&self)
        requires
            self.wf(),
        ensures
            distinct_ids(self@),
    {
    }

    /// An empty collection.
    pub fn new() -> (s: Store)
        ensures
            s.wf(),
            s@ == Seq::<DocModel>::empty(),
            s.ids_assigned() == 0,
    {
        let s = Store { docs: Vec::new(), next_id: 0 };
        proof {
            assert(s@ =~= Seq::<DocModel>::empty());
        }
        s
    }

    /// Every stored document, in collection order.
    pub fn list_all(&self) -> (r: Vec<StoredDoc>)
        ensures
            docs_view(r@) == self@,
            r@.len() == self@.len(),
    {
        let mut out: Vec<StoredDoc> = Vec::new();
        let len = self.docs.len();
        let mut i: usize = 0;
        while i < len
            invariant
                len == self.docs@.len(),
                i <= len,
                docs_view(out@) =~= self@.take(i as int),
            decreases len - i,
        {
            let d = self.docs[i].clone();
            proof {
                assert(d@ == self@[i as int]);
                lemma_docs_view_push(out@, d);
                assert(self@.take(i + 1) =~= self@.take(i as int).push(self@[i as int]));
            }
            out.push(d);
            i += 1;
        }
        proof {
            assert(self@.take(len as int) =~= self@);
        }
        out
    }

    /// The documents whose author contains `pattern` as a substring of
    /// its UTF-8 encoding, in collection order.
    pub fn find_by_author(&self, pattern: &str) -> (r: Vec<StoredDoc>)
        ensures
            docs_view(r@) == spec_find(self@, pattern.spec_bytes()),
    {
        let mut out: Vec<StoredDoc> = Vec::new();
        let len = self.docs.len();
        let mut i: usize = 0;
        while i < len
            invariant
                len == self.docs@.len(),
                i <= len,
                docs_view(out@) =~= spec_find(self@.take(i as int), pattern.spec_bytes()),
            decreases len - i,
        {
            let ghost pb = pattern.spec_bytes();
            proof {
                reveal(Seq::filter);
                assert(self@.take(i + 1).drop_last() =~= self@.take(i as int));
                assert(self@.take(i + 1).last() == self@[i as int]);
            }
            let d = self.docs[i].clone();
            proof {
                assert(d@ == self@[i as int]);
            }
            if crate::text::contains_bytes(d.author.as_str().as_bytes(), pattern.as_bytes()) {
                proof {
                    assert(author_pred(pb)(self@[i as int]));
                    lemma_docs_view_push(out@, d);
                    assert(spec_find(self@.take(i + 1), pb) == spec_find(
                        self@.take(i as int),
                        pb,
                    ).push(self@[i as int])) by {
                        reveal(Seq::filter);
                    }
                }
                out.push(d);
            } else {
                proof {
                    assert(!author_pred(pb)(self@[i as int]));
                    assert(spec_find(self@.take(i + 1), pb) == spec_find(self@.take(i as int), pb))
                        by {
                        reveal(Seq::filter);
                    }
                }
            }
            i += 1;
        }
        proof {
            assert(self@.take(len as int) =~= self@);
        }
        out
    }

    /// Inserts the record as a new document and returns the identifier
    /// the collection assigned to it, one no stored document carried.
    pub fn insert(&mut self, data: &Data) -> (id: u64)
        requires
            old(self).wf(),
            old(self).ids_assigned() < u64::MAX,
        ensures
            final(self).wf(),
            final(self)@ == spec_insert(old(self)@, id, data.title@, data.author@),
            !has_id(old(self)@, id),
            final(self).ids_assigned() == old(self).ids_assigned() + 1,
            id as nat == old(self).ids_assigned(),
    {
        let id = self.next_id;
        self.next_id = self.next_id + 1;
        self.docs.push(
            StoredDoc { id, title: data.title.clone(), author: data.author.clone() },
        );
        proof {
            assert(self@ =~= spec_insert(old(self)@, id, data.title@, data.author@));
        }
        id
    }

    /// Replaces the whole document carrying `id` with the record's
    /// fields and reports how many documents changed: one when `id` is
    /// present, none when it is not — in which case nothing changes.
    pub fn update_by_id(&mut self, data: &Data, id: u64) -> (n: u64)
        requires
            old(self).wf(),
        ensures
            final(self).wf(),
            final(self)@ == spec_update(old(self)@, id, data.title@, data.author@),
            n == spec_modified_count(old(self)@, id),
            final(self).ids_assigned() == old(self).ids_assigned(),
    {
        let len = self.docs.len();
        let mut i: usize = 0;
        while i < len
            invariant
                *self == *old(self),
                old(self).wf(),
                len == self.docs@.len(),
                i <= len,
                forall|k: int| 0 <= k < i ==> (#[trigger] self@[k]).id != id,
            decreases len - i,
        {
            if self.docs[i].id == id {
                proof {
                    assert(old(self)@[i as int] == old(self).docs@[i as int]@);
                    assert(has_id(old(self)@, id));
                }
                self.docs[i] = StoredDoc {
                    id,
                    title: data.title.clone(),
                    author: data.author.clone(),
                };
                proof {
                    let ghost pre = old(self)@;
                    let ghost post = spec_update(pre, id, data.title@, data.author@);
                    assert forall|k: int| 0 <= k < pre.len() && k != i implies (#[trigger] pre[k]).id
                        != id by {
                        if k < i {
                            assert(pre[k].id != pre[i as int].id);
                        } else {
                            assert(pre[i as int].id != pre[k].id);
                        }
                    }
                    assert forall|k: int| 0 <= k < pre.len() implies self@[k] == #[trigger] post[k] by {
                        assert(self@[k] == self.docs@[k]@);
                        if k != i {
                            assert(self.docs@[k] == old(self).docs@[k]);
                            assert(pre[k].id != id);
                        }
                    }
                    assert(self@ =~~= post);
                }
                return 1;
            }
            i += 1;
        }
        proof {
            assert(self@ =~= spec_update(old(self)@, id, data.title@, data.author@));
        }
        0
    }

    /// Deletes the first document whose title equals `title` — at most
    /// one document leaves — and reports how many were removed.
    pub fn delete_by_title(&mut self, title: &String) -> (n: u64)
        requires
            old(self).wf(),
        ensures
            final(self).wf(),
            final(self)@ == spec_delete(old(self)@, title@),
            n == spec_deleted_count(old(self)@, title@),
            n <= 1,
            final(self)@.len() == old(self)@.len() - n,
            final(self).ids_assigned() == old(self).ids_assigned(),
    {
        let len = self.docs.len();
        let mut i: usize = 0;
        while i < len
            invariant
                *self == *old(self),
                old(self).wf(),
                len == self.docs@.len(),
                i <= len,
                forall|k: int| 0 <= k < i ==> (#[trigger] self@[k]).title != title@,
            decreases len - i,
        {
            if self.docs[i].title == *title {
                proof {
                    lemma_first_title_match(old(self)@, title@);
                    let ghost pre = old(self)@;
                    assert(pre[i as int] == old(self).docs@[i as int]@);
                    assert(pre[i as int].title == title@);
                    let ghost fm = first_title_match(pre, title@);
                    assert(fm != -1);
                    if fm < i {
                        assert(pre[fm].title != title@);
                    }
                    if fm > i {
                        assert(pre[i as int].title != title@);
                    }
                    assert(first_title_match(old(self)@, title@) == i);
                }
                self.docs.remove(i);
                proof {
                    assert(self@ =~= old(self)@.remove(i as int));
                }
                return 1;
            }
            i += 1;
        }
        proof {
            lemma_first_title_match(old(self)@, title@);
        }
        0
    }
}

} // verus!
