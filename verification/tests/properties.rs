use std::collections::HashSet;

use pastebin::models::{Lang, PasteError, SendPastebin};
use pastebin::paste_id::PasteId;
use pastebin::routes::{delete_by_id, get_by_id, show_pastebin, update_by_id, upload, upload_form};
use pastebin::store::PasteStore;
use pastebin::sweeper::clean_old_pastes;

const MAX_SIZE: usize = 128 * 1024;

#[test]
fn generated_identifiers_do_not_collide() {
    let mut seen: HashSet<String> = HashSet::new();
    for _ in 0..100_000 {
        let id = PasteId::new();
        assert!(seen.insert(id.to_string()));
    }
    assert_eq!(seen.len(), 100_000);
}

#[test]
fn identifier_roundtrips_through_its_external_form() {
    for _ in 0..100 {
        let id = PasteId::new();
        let rendered = id.to_string();
        let parsed = match PasteId::from_param(&rendered) {
            Ok(p) => p,
            Err(_) => panic!("a generated identifier must validate"),
        };
        assert_eq!(parsed.to_string(), rendered);
    }
    let fixed = "18ab80ae-c00e-4f72-b6f3-f4e2233a8b68";
    let parsed = PasteId::from_param(fixed).unwrap();
    assert_eq!(parsed.as_str(), fixed);
}

#[test]
fn malformed_identifiers_are_rejected() {
    // wrong length
    assert_eq!(
        PasteId::from_param("18ab80ae").unwrap_err(),
        PasteError::ValidationError
    );
    // wrong alphabet
    assert_eq!(
        PasteId::from_param("zzzzzzzz-zzzz-zzzz-zzzz-zzzzzzzzzzzz").unwrap_err(),
        PasteError::ValidationError
    );
    // uppercase is not the generation format
    assert_eq!(
        PasteId::from_param("18AB80AE-C00E-4F72-B6F3-F4E2233A8B68").unwrap_err(),
        PasteError::ValidationError
    );
    // separators in the wrong places
    assert_eq!(
        PasteId::from_param("18ab80aec-00e-4f72-b6f3-f4e2233a8b68").unwrap_err(),
        PasteError::ValidationError
    );
    assert_eq!(
        PasteId::from_param("").unwrap_err(),
        PasteError::ValidationError
    );
}

#[test]
fn read_returns_created_content_byte_for_byte() {
    let mut store = PasteStore::new();
    let mut content: Vec<u8> = Vec::new();
    for i in 0..4096u32 {
        content.push((i % 256) as u8);
    }
    let id = upload(&mut store, content.clone(), MAX_SIZE, 0).unwrap();
    let read_back = store.read(&id).unwrap();
    assert_eq!(read_back, content);
}

#[test]
fn oversized_upload_is_rejected_and_leaves_nothing() {
    let mut store = PasteStore::new();
    let content = vec![0u8; 11];
    let response = upload(&mut store, content, 10, 0);
    assert_eq!(response.unwrap_err(), PasteError::PayloadTooLarge);
    // the store holds nothing afterwards
    assert_eq!(store.list_with_age(0).len(), 0);
}

#[test]
fn oversized_replace_keeps_the_old_content() {
    let mut store = PasteStore::new();
    let id = upload(&mut store, b"short".to_vec(), 10, 0).unwrap();
    let response = store.replace(&id, vec![0u8; 11], 10, 1);
    assert_eq!(response.unwrap_err(), PasteError::PayloadTooLarge);
    assert_eq!(store.read(&id).unwrap(), b"short".to_vec());
}

#[test]
fn deleted_paste_reads_as_not_found() {
    let mut store = PasteStore::new();
    let id = upload(&mut store, b"gone soon".to_vec(), MAX_SIZE, 0).unwrap();
    assert!(store.delete(&id).is_ok());
    assert_eq!(store.read(&id).unwrap_err(), PasteError::NotFound);
    // deleting again reports NotFound, not success
    assert_eq!(store.delete(&id).unwrap_err(), PasteError::NotFound);
}

#[test]
fn replace_refreshes_the_eviction_clock() {
    let mut store = PasteStore::new();
    let id = upload(&mut store, b"first".to_vec(), MAX_SIZE, 0).unwrap();
    let token = id.to_string();

    let replaced = update_by_id(&mut store, &token, b"second".to_vec(), MAX_SIZE, 10);
    assert!(replaced.is_ok());
    assert_eq!(store.read(&id).unwrap(), b"second".to_vec());

    // at time 20 the age is measured from the replace at 10, not the
    // creation at 0: 10 < 15, so the paste survives the sweep ...
    clean_old_pastes(&mut store, 20, 15);
    assert_eq!(store.read(&id).unwrap(), b"second".to_vec());

    // ... though measured from creation it would have been evicted; and
    // once the age from the replace reaches the limit, it is evicted.
    clean_old_pastes(&mut store, 30, 15);
    assert_eq!(store.read(&id).unwrap_err(), PasteError::NotFound);
}

#[test]
fn hello_world_lifecycle() {
    let mut store = PasteStore::new();
    let body = "Hello, world!";
    let x = upload(&mut store, body.as_bytes().to_vec(), MAX_SIZE, 0).unwrap();
    let token = x.to_string();

    assert_eq!(get_by_id(&store, &token).unwrap(), body.as_bytes().to_vec());
    assert!(delete_by_id(&mut store, &token).is_ok());
    assert_eq!(get_by_id(&store, &token).unwrap_err(), PasteError::NotFound);
}

#[test]
fn stale_paste_is_evicted_after_one_lifetime() {
    let mut store = PasteStore::new();
    let id = upload(&mut store, b"ephemeral".to_vec(), MAX_SIZE, 0).unwrap();
    // lifetime of one time-unit, clock advanced past it
    clean_old_pastes(&mut store, 2, 1);
    assert_eq!(store.read(&id).unwrap_err(), PasteError::NotFound);
}

#[test]
fn sweep_evicts_exactly_the_stale_entries() {
    let mut store = PasteStore::new();
    let old_id = upload(&mut store, b"old".to_vec(), MAX_SIZE, 0).unwrap();
    let new_id = upload(&mut store, b"new".to_vec(), MAX_SIZE, 5).unwrap();

    clean_old_pastes(&mut store, 6, 3);
    assert_eq!(store.read(&old_id).unwrap_err(), PasteError::NotFound);
    assert_eq!(store.read(&new_id).unwrap(), b"new".to_vec());
}

#[test]
fn invalid_identifier_reads_as_not_found() {
    let mut store = PasteStore::new();
    // the boundary answers a malformed token exactly like a missing one
    assert_eq!(
        get_by_id(&store, "not-a-real-token").unwrap_err(),
        PasteError::NotFound
    );
    assert_eq!(
        delete_by_id(&mut store, "not-a-real-token").unwrap_err(),
        PasteError::NotFound
    );
    assert_eq!(
        get_by_id(&store, "ZZZZZZZZ-ZZZZ-ZZZZ-ZZZZ-ZZZZZZZZZZZZ").unwrap_err(),
        PasteError::NotFound
    );
}

#[test]
fn list_with_age_reports_every_entry() {
    let mut store = PasteStore::new();
    let a = upload(&mut store, b"a".to_vec(), MAX_SIZE, 0).unwrap();
    let b = upload(&mut store, b"b".to_vec(), MAX_SIZE, 4).unwrap();

    let listed = store.list_with_age(10);
    assert_eq!(listed.len(), 2);
    let mut ages: Vec<(String, u64)> = listed
        .iter()
        .map(|entry| (entry.0.to_string(), entry.1))
        .collect();
    ages.sort();
    let mut expected = vec![(a.to_string(), 10u64), (b.to_string(), 6u64)];
    expected.sort();
    assert_eq!(ages, expected);
}

#[test]
fn language_tags_resolve_to_highlight_classes() {
    let supported = [
        ("c", "language-c"),
        ("cpp", "language-cpp"),
        ("csharp", "language-csharp"),
        ("ruby", "language-ruby"),
        ("js", "language-js"),
        ("xml", "language-xml"),
        ("css", "language-css"),
        ("rust", "language-rust"),
    ];
    for (tag, class) in supported {
        assert_eq!(Lang::from_param(tag).to_string(), class);
    }
    assert_eq!(Lang::from_param("brainfuck").to_string(), "language-text");
    assert_eq!(Lang::from_param("").to_string(), "language-text");
}

#[test]
fn form_upload_stores_content_and_resolves_language() {
    let mut store = PasteStore::new();
    let form = SendPastebin {
        raw_content: String::from("fn main() {}"),
        lang: String::from("rust"),
    };
    let (id, lang) = upload_form(&mut store, form, MAX_SIZE, 0).unwrap();
    assert_eq!(lang.to_string(), "language-rust");
    assert_eq!(
        store.read(&id).unwrap(),
        "fn main() {}".as_bytes().to_vec()
    );
}

#[test]
fn show_pastebin_returns_content_and_class() {
    let mut store = PasteStore::new();
    let id = upload(&mut store, b"<svg/>".to_vec(), MAX_SIZE, 0).unwrap();
    let token = id.to_string();

    let (content, lang) = show_pastebin(&store, &token, "xml").unwrap();
    assert_eq!(content, b"<svg/>".to_vec());
    assert_eq!(lang.to_string(), "language-xml");

    assert_eq!(
        show_pastebin(&store, "nonsense", "xml").unwrap_err(),
        PasteError::NotFound
    );
}

#[test]
fn contains_tracks_creation_and_deletion() {
    let mut store = PasteStore::new();
    let id = upload(&mut store, b"x".to_vec(), MAX_SIZE, 0).unwrap();
    assert!(store.contains(&id));
    assert!(store.delete(&id).is_ok());
    assert!(!store.contains(&id));
}
