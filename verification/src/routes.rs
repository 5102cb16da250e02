//! The route layer's decision logic: what each endpoint answers.
//!
//! Every handler takes the collection and the request's plain inputs and
//! produces the HTTP status and the exact JSON body bytes.  The one
//! departure from a bare pass-through: a syntactically malformed
//! identifier on the update endpoint is answered with a 400 status
//! instead of failing the handling thread.  Database failures are not
//! decided here; `error_reply` is the answer the caller gives when the
//! underlying store call fails.

use crate::data::Data;
use crate::oid::{
    IdParse, hex_char_byte, hex_char_of, id_hex, id_hex_bytes, hex_num, oid_prefix_zero,
    parse_id, valid_oid_bytes,
};
use crate::store::{
    DocModel, Store, StoredDoc, docs_view, spec_delete, spec_deleted_count, spec_find,
    spec_insert, spec_modified_count, spec_update, has_id,
};
use vstd::prelude::*;
use vstd::string::StringSliceAdditionalSpecFns;
use vstd::utf8::encode_utf8;

verus! {

/// An HTTP answer: the status code and the response body bytes.
pub struct HttpReply {
    pub status: u16,
    pub body: Vec<u8>,
}

/// JSON escape of one byte of a string value: quote and backslash are
/// escaped, the named control characters take their short forms, any
/// other control byte takes the `\u00XX` form, and everything else
/// passes through.
pub open spec fn esc_byte(b: u8) -> Seq<u8> {
    if b == 34 {
        seq![92u8, 34u8]
    } else if b == 92 {
        seq![92u8, 92u8]
    } else if b == 10 {
        seq![92u8, 110u8]
    } else if b == 13 {
        seq![92u8, 114u8]
    } else if b == 9 {
        seq![92u8, 116u8]
    } else if b < 32 {
        seq![92u8, 117u8, 48u8, 48u8, hex_char_byte(b / 16), hex_char_byte(b % 16)]
    } else {
        seq![b]
    }
}

/// JSON escape of a whole string value.
pub open spec fn json_escaped(s: Seq<u8>) -> Seq<u8>
    decreases s.len(),
{
    if s.len() == 0 {
        Seq::empty()
    } else {
        json_escaped(s.drop_last()) + esc_byte(s.last())
    }
}

/// A JSON string literal: the escaped bytes between quotes.
pub open spec fn json_string(s: Seq<u8>) -> Seq<u8> {
    seq![34u8] + json_escaped(s) + seq![34u8]
}

/// The bytes `{"_id":{"$oid":"`.
pub open spec fn doc_open() -> Seq<u8> {
    seq![123u8, 34u8, 95u8, 105u8, 100u8, 34u8, 58u8, 123u8, 34u8, 36u8, 111u8, 105u8, 100u8, 34u8, 58u8, 34u8]
}

/// The bytes `"},"title":`.
pub open spec fn title_sep() -> Seq<u8> {
    seq![34u8, 125u8, 44u8, 34u8, 116u8, 105u8, 116u8, 108u8, 101u8, 34u8, 58u8]
}

/// The bytes `,"author":`.
pub open spec fn author_sep() -> Seq<u8> {
    seq![44u8, 34u8, 97u8, 117u8, 116u8, 104u8, 111u8, 114u8, 34u8, 58u8]
}

/// The bytes `{"$oid":"`.
pub open spec fn oid_open() -> Seq<u8> {
    seq![123u8, 34u8, 36u8, 111u8, 105u8, 100u8, 34u8, 58u8, 34u8]
}

/// One document as JSON: identifier, then title, then author.
pub open spec fn json_doc(d: DocModel) -> Seq<u8> {
    doc_open() + id_hex_bytes(d.id) + title_sep() + json_string(encode_utf8(d.title))
        + author_sep() + json_string(encode_utf8(d.author)) + seq![125u8]
}

/// The comma-separated run of documents inside an array.
pub open spec fn json_docs_inner(docs: Seq<DocModel>) -> Seq<u8>
    decreases docs.len(),
{
    if docs.len() == 0 {
        Seq::empty()
    } else if docs.len() == 1 {
        json_doc(docs[0])
    } else {
        json_docs_inner(docs.drop_last()) + seq![44u8] + json_doc(docs.last())
    }
}

/// A run of documents as a JSON array.
pub open spec fn json_docs(docs: Seq<DocModel>) -> Seq<u8> {
    seq![91u8] + json_docs_inner(docs) + seq![93u8]
}

/// An inserted identifier as JSON, in its engine encoding.
pub open spec fn json_oid(id: u64) -> Seq<u8> {
    oid_open() + id_hex_bytes(id) + seq![34u8, 125u8]
}

/// A modified or deleted count as a JSON number (always 0 or 1 here).
pub open spec fn count_body(n: u64) -> Seq<u8>
    recommends
        n <= 9,
{
    seq![(48 + n) as u8]
}

fn push_escaped(out: &mut Vec<u8>, s: &[u8])
    ensures
        final(out)@ == old(out)@ + json_escaped(s@),
{
    let len = s.len();
    let mut i: usize = 0;
    while i < len
        invariant
            len == s@.len(),
            i <= len,
            out@ == old(out)@ + json_escaped(s@.take(i as int)),
        decreases len - i,
    {
        proof {
            assert(s@.take(i + 1).drop_last() =~= s@.take(i as int));
            assert(s@.take(i + 1).last() == s@[i as int]);
        }
        let b = s[i];
        if b == 34 {
            out.push(92);
            out.push(34);
        } else if b == 92 {
            out.push(92);
            out.push(92);
        } else if b == 10 {
            out.push(92);
            out.push(110);
        } else if b == 13 {
            out.push(92);
            out.push(114);
        } else if b == 9 {
            out.push(92);
            out.push(116);
        } else if b < 32 {
            out.push(92);
            out.push(117);
            out.push(48);
            out.push(48);
            out.push(hex_char_of(b / 16));
            out.push(hex_char_of(b % 16));
        } else {
            out.push(b);
        }
        proof {
            assert(out@ =~= old(out)@ + json_escaped(s@.take(i + 1)));
        }
        i += 1;
    }
    proof {
        assert(s@.take(len as int) =~= s@);
    }
}

fn push_json_string(out: &mut Vec<u8>, s: &str)
    ensures
        final(out)@ == old(out)@ + json_string(s.spec_bytes()),
{
    out.push(34);
    push_escaped(out, s.as_bytes());
    out.push(34);
    proof {
        assert(out@ =~= old(out)@ + json_string(s.spec_bytes()));
    }
}

fn push_doc(out: &mut Vec<u8>, d: &StoredDoc)
    ensures
        final(out)@ == old(out)@ + json_doc(d@),
{
    out.push(123);
    out.push(34);
    out.push(95);
    out.push(105);
    out.push(100);
    out.push(34);
    out.push(58);
    out.push(123);
    out.push(34);
    out.push(36);
    out.push(111);
    out.push(105);
    out.push(100);
    out.push(34);
    out.push(58);
    out.push(34);
    proof {
        assert(out@ =~= old(out)@ + doc_open());
    }
    let mut hexv = id_hex(d.id);
    out.append(&mut hexv);
    out.push(34);
    out.push(125);
    out.push(44);
    out.push(34);
    out.push(116);
    out.push(105);
    out.push(116);
    out.push(108);
    out.push(101);
    out.push(34);
    out.push(58);
    proof {
        assert(out@ =~= old(out)@ + doc_open() + id_hex_bytes(d.id) + title_sep());
    }
    push_json_string(out, d.title.as_str());
    out.push(44);
    out.push(34);
    out.push(97);
    out.push(117);
    out.push(116);
    out.push(104);
    out.push(111);
    out.push(114);
    out.push(34);
    out.push(58);
    push_json_string(out, d.author.as_str());
    out.push(125);
    proof {
        assert(out@ =~= old(out)@ + json_doc(d@));
    }
}

/// The JSON array for a run of documents.
pub fn docs_json(docs: &Vec<StoredDoc>) -> (r: Vec<u8>)
    ensures
        r@ == json_docs(docs_view(docs@)),
{
    let ghost dv = docs_view(docs@);
    let mut out: Vec<u8> = Vec::new();
    out.push(91);
    let len = docs.len();
    let mut i: usize = 0;
    while i < len
        invariant
            dv == docs_view(docs@),
            len == docs@.len(),
            i <= len,
            out@ == seq![91u8] + json_docs_inner(dv.take(i as int)),
        decreases len - i,
    {
        proof {
            assert(dv.take(i + 1).drop_last() =~= dv.take(i as int));
            assert(dv.take(i + 1).last() == dv[i as int]);
            assert(dv[i as int] == docs@[i as int]@);
        }
        if i > 0 {
            out.push(44);
        }
        push_doc(&mut out, &docs[i]);
        proof {
            assert(out@ =~= seq![91u8] + json_docs_inner(dv.take(i + 1)));
        }
        i += 1;
    }
    out.push(93);
    proof {
        assert(dv.take(len as int) =~= dv);
        assert(out@ =~= json_docs(dv));
    }
    out
}

/// The JSON body for an inserted identifier.
pub fn oid_json(id: u64) -> (r: Vec<u8>)
    ensures
        r@ == json_oid(id),
{
    let mut out: Vec<u8> = Vec::new();
    out.push(123);
    out.push(34);
    out.push(36);
    out.push(111);
    out.push(105);
    out.push(100);
    out.push(34);
    out.push(58);
    out.push(34);
    let mut hexv = id_hex(id);
    out.append(&mut hexv);
    out.push(34);
    out.push(125);
    proof {
        assert(out@ =~= json_oid(id));
    }
    out
}

fn count_json(n: u64) -> (r: Vec<u8>)
    requires
        n <= 9,
    ensures
        r@ == count_body(n),
{
    let mut out: Vec<u8> = Vec::new();
    out.push(48 + (n as u8));
    proof {
        assert(out@ =~= count_body(n));
    }
    out
}

/// The answer the route layer gives when the underlying database call
/// fails: a 500 status with an empty body.
pub fn error_reply() -> (r: HttpReply)
    ensures
        r.status == 500,
        r.body@ == Seq::<u8>::empty(),
{
    HttpReply { status: 500, body: Vec::new() }
}

/// GET /get-all: every document, as a JSON array.
pub fn handle_get_all(store: &Store) -> (r: HttpReply)
    ensures
        r.status == 200,
        r.body@ == json_docs(store@),
{
    let docs = store.list_all();
    HttpReply { status: 200, body: docs_json(&docs) }
}

/// GET /get-by/{param}: the documents whose author contains the path
/// segment as a substring, as a JSON array.
pub fn handle_get_by(store: &Store, param: &str) -> (r: HttpReply)
    ensures
        r.status == 200,
        r.body@ == json_docs(spec_find(store@, param.spec_bytes())),
{
    let docs = store.find_by_author(param);
    HttpReply { status: 200, body: docs_json(&docs) }
}

/// POST /add: inserts the record and answers with the assigned
/// identifier in its engine encoding.
pub fn handle_add(store: &mut Store, data: &Data) -> (r: HttpReply)
    requires
        old(store).wf(),
        old(store).ids_assigned() < u64::MAX,
    ensures
        final(store).wf(),
        r.status == 200,
        ({
            let id = old(store).ids_assigned() as u64;
            &&& final(store)@ == spec_insert(old(store)@, id, data.title@, data.author@)
            &&& !has_id(old(store)@, id)
            &&& r.body@ == json_oid(id)
        }),
{
    let id = store.insert(data);
    HttpReply { status: 200, body: oid_json(id) }
}

/// POST /update/{param}: parses the identifier from the path segment and
/// replaces the document it names.  A malformed identifier is answered
/// with a 400 status; a well-formed identifier the model never assigned
/// names no document, so the count is 0 and nothing changes.
pub fn handle_update(store: &mut Store, data: &Data, param: &str) -> (r: HttpReply)
    requires
        old(store).wf(),
    ensures
        final(store).wf(),
        final(store).ids_assigned() == old(store).ids_assigned(),
        ({
            let b = param.spec_bytes();
            if !valid_oid_bytes(b) {
                &&& r.status == 400
                &&& r.body@ == Seq::<u8>::empty()
                &&& final(store)@ == old(store)@
            } else if !oid_prefix_zero(b) {
                &&& r.status == 200
                &&& r.body@ == count_body(0)
                &&& final(store)@ == old(store)@
            } else {
                let id = hex_num(b.skip(8)) as u64;
                &&& r.status == 200
                &&& r.body@ == count_body(spec_modified_count(old(store)@, id))
                &&& final(store)@ == spec_update(old(store)@, id, data.title@, data.author@)
            }
        }),
{
    match parse_id(param) {
        IdParse::Malformed => HttpReply { status: 400, body: Vec::new() },
        IdParse::OutOfRange => HttpReply { status: 200, body: count_json(0) },
        IdParse::Id(id) => {
            let n = store.update_by_id(data, id);
            HttpReply { status: 200, body: count_json(n) }
        },
    }
}

/// DELETE /delete: deletes at most one document whose title equals the
/// record's title and answers with the deleted count.
pub fn handle_delete(store: &mut Store, data: &Data) -> (r: HttpReply)
    requires
        old(store).wf(),
    ensures
        final(store).wf(),
        final(store).ids_assigned() == old(store).ids_assigned(),
        r.status == 200,
        final(store)@ == spec_delete(old(store)@, data.title@),
        r.body@ == count_body(spec_deleted_count(old(store)@, data.title@)),
{
    let n = store.delete_by_title(&data.title);
    HttpReply { status: 200, body: count_json(n) }
}

} // verus!
