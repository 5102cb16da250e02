use book_catalog::data::Data;
use book_catalog::oid::{id_hex, parse_id, IdParse};
use book_catalog::routes::{
    docs_json, error_reply, handle_add, handle_delete, handle_get_all, handle_get_by,
    handle_update, oid_json,
};
use book_catalog::store::Store;
use book_catalog::text::contains_bytes;

fn record(title: &str, author: &str) -> Data {
    Data::new(title.to_string(), author.to_string())
}

#[test]
fn insert_then_list_includes_record() {
    let mut store = Store::new();
    store.insert(&record("Dune", "Frank Herbert"));
    let docs = store.list_all();
    assert!(docs
        .iter()
        .any(|d| d.title == "Dune" && d.author == "Frank Herbert"));
}

#[test]
fn update_by_inserted_id_replaces_fields() {
    let mut store = Store::new();
    let id = store.insert(&record("Dune", "Frank Herbert"));
    let n = store.update_by_id(&record("Dune Messiah", "F. Herbert"), id);
    assert_eq!(n, 1);
    let docs = store.list_all();
    let doc = docs.iter().find(|d| d.id == id).unwrap();
    assert_eq!(doc.title, "Dune Messiah");
    assert_eq!(doc.author, "F. Herbert");
}

#[test]
fn update_absent_id_modifies_nothing() {
    let mut store = Store::new();
    store.insert(&record("Dune", "Frank Herbert"));
    let n = store.update_by_id(&record("Other", "Nobody"), 999);
    assert_eq!(n, 0);
    let docs = store.list_all();
    assert_eq!(docs.len(), 1);
    assert_eq!(docs[0].title, "Dune");
    assert_eq!(docs[0].author, "Frank Herbert");
}

#[test]
fn delete_twice_returns_one_then_zero() {
    let mut store = Store::new();
    store.insert(&record("Dune", "Frank Herbert"));
    store.insert(&record("Emma", "Jane Austen"));
    assert_eq!(store.delete_by_title(&"Dune".to_string()), 1);
    assert_eq!(store.delete_by_title(&"Dune".to_string()), 0);
    assert_eq!(store.list_all().len(), 1);
}

#[test]
fn delete_removes_at_most_one_of_equal_titles() {
    let mut store = Store::new();
    store.insert(&record("Dune", "Frank Herbert"));
    store.insert(&record("Dune", "Someone Else"));
    assert_eq!(store.delete_by_title(&"Dune".to_string()), 1);
    assert_eq!(store.list_all().len(), 1);
    // The first matching document left; the other remains.
    assert_eq!(store.list_all()[0].author, "Someone Else");
    assert_eq!(store.delete_by_title(&"Dune".to_string()), 1);
    assert_eq!(store.delete_by_title(&"Dune".to_string()), 0);
}

#[test]
fn find_by_author_keeps_exactly_the_matches() {
    let mut store = Store::new();
    store.insert(&record("Dune", "Frank Herbert"));
    store.insert(&record("Essays", "Herb Caen"));
    store.insert(&record("Earthsea", "Ursula K. Le Guin"));
    let found = store.find_by_author("Herb");
    assert_eq!(found.len(), 2);
    assert_eq!(found[0].author, "Frank Herbert");
    assert_eq!(found[1].author, "Herb Caen");
    assert!(store.find_by_author("zzz").is_empty());
}

#[test]
fn find_with_empty_pattern_matches_all() {
    let mut store = Store::new();
    store.insert(&record("Dune", "Frank Herbert"));
    store.insert(&record("Emma", "Jane Austen"));
    assert_eq!(store.find_by_author("").len(), 2);
}

#[test]
fn contains_bytes_is_substring_match() {
    assert!(contains_bytes(b"hello world", b"lo wo"));
    assert!(contains_bytes(b"hello", b""));
    assert!(contains_bytes(b"", b""));
    assert!(!contains_bytes(b"hello", b"hello!"));
    assert!(!contains_bytes(b"abc", b"abd"));
}

#[test]
fn parse_id_reads_model_identifiers() {
    assert_eq!(parse_id("000000000000000000000010"), IdParse::Id(16));
    assert_eq!(parse_id("00000000000000000000001a"), IdParse::Id(26));
    assert_eq!(parse_id("00000000000000000000001A"), IdParse::Id(26));
}

#[test]
fn parse_id_rejects_malformed_strings() {
    assert_eq!(parse_id(""), IdParse::Malformed);
    assert_eq!(parse_id("0000000000000000000001"), IdParse::Malformed);
    assert_eq!(parse_id("00000000000000000000001g"), IdParse::Malformed);
    assert_eq!(
        parse_id("ffffffffffffffffffffffff"),
        IdParse::OutOfRange
    );
}

#[test]
fn id_hex_round_trips() {
    let hex = id_hex(3735928559);
    assert_eq!(hex, b"0000000000000000deadbeef".to_vec());
    let s = String::from_utf8(hex).unwrap();
    assert_eq!(parse_id(&s), IdParse::Id(3735928559));
}

#[test]
fn get_all_on_empty_store_is_empty_array() {
    let store = Store::new();
    let reply = handle_get_all(&store);
    assert_eq!(reply.status, 200);
    assert_eq!(reply.body, b"[]".to_vec());
}

#[test]
fn json_bodies_escape_special_characters() {
    let mut store = Store::new();
    store.insert(&record("a\"b\\c\nd", "\u{1}"));
    let reply = handle_get_all(&store);
    let body = String::from_utf8(reply.body).unwrap();
    assert_eq!(
        body,
        "[{\"_id\":{\"$oid\":\"000000000000000000000000\"},\"title\":\"a\\\"b\\\\c\\nd\",\"author\":\"\\u0001\"}]"
    );
}

#[test]
fn error_reply_is_500_with_empty_body() {
    let reply = error_reply();
    assert_eq!(reply.status, 500);
    assert!(reply.body.is_empty());
}

#[test]
fn update_with_malformed_identifier_is_400() {
    let mut store = Store::new();
    store.insert(&record("Dune", "Frank Herbert"));
    let reply = handle_update(&mut store, &record("X", "Y"), "not-an-identifier");
    assert_eq!(reply.status, 400);
    assert!(reply.body.is_empty());
    // The collection is untouched.
    assert_eq!(store.list_all()[0].title, "Dune");
}

#[test]
fn update_with_foreign_identifier_counts_zero() {
    let mut store = Store::new();
    store.insert(&record("Dune", "Frank Herbert"));
    let reply = handle_update(&mut store, &record("X", "Y"), "ffffffffffffffffffffffff");
    assert_eq!(reply.status, 200);
    assert_eq!(reply.body, b"0".to_vec());
    assert_eq!(store.list_all()[0].title, "Dune");
}

#[test]
fn dune_scenario_over_the_routes() {
    let mut store = Store::new();

    let reply = handle_add(&mut store, &record("Dune", "Frank Herbert"));
    assert_eq!(reply.status, 200);
    assert_eq!(
        reply.body,
        b"{\"$oid\":\"000000000000000000000000\"}".to_vec()
    );

    let reply = handle_get_by(&store, "Herbert");
    assert_eq!(reply.status, 200);
    assert_eq!(
        String::from_utf8(reply.body).unwrap(),
        "[{\"_id\":{\"$oid\":\"000000000000000000000000\"},\"title\":\"Dune\",\"author\":\"Frank Herbert\"}]"
    );

    let reply = handle_update(
        &mut store,
        &record("Dune", "F. Herbert"),
        "000000000000000000000000",
    );
    assert_eq!(reply.status, 200);
    assert_eq!(reply.body, b"1".to_vec());

    let reply = handle_delete(&mut store, &record("Dune", ""));
    assert_eq!(reply.status, 200);
    assert_eq!(reply.body, b"1".to_vec());

    let reply = handle_delete(&mut store, &record("Dune", ""));
    assert_eq!(reply.status, 200);
    assert_eq!(reply.body, b"0".to_vec());
}

#[test]
fn docs_json_and_oid_json_exact_values() {
    let mut store = Store::new();
    store.insert(&record("Emma", "Jane Austen"));
    let docs = store.list_all();
    let body = String::from_utf8(docs_json(&docs)).unwrap();
    assert_eq!(
        body,
        "[{\"_id\":{\"$oid\":\"000000000000000000000000\"},\"title\":\"Emma\",\"author\":\"Jane Austen\"}]"
    );
    let oid = String::from_utf8(oid_json(26)).unwrap();
    assert_eq!(oid, "{\"$oid\":\"00000000000000000000001a\"}");
}
