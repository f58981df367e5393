use pastebin::models::PasteError;
use pastebin::paste_id::PasteId;
use pastebin::routes::{delete_by_id, get_by_id, update_by_id, upload};
use pastebin::store::PasteStore;

const MAX_SIZE: usize = 128 * 1024;

fn store_with(token: &str, content: &[u8], now: u64) -> PasteStore {
    let mut store = PasteStore::new();
    let id = match PasteId::from_param(token) {
        Ok(id) => id,
        Err(_) => panic!("token should be valid"),
    };
    let created = store.create(id, content.to_vec(), MAX_SIZE, now);
    assert!(created.is_ok());
    store
}

#[test]
fn test_upload() {
    let mut store = PasteStore::new();
    let body = "Hello, world!";
    let response = upload(&mut store, body.as_bytes().to_vec(), MAX_SIZE, 0);
    assert!(response.is_ok());
}

#[test]
fn test_get_by_id() {
    let token = "18ab80ae-c00e-4f72-b6f3-f4e2233a8b68";
    let test_file_content = b"Hello, world!";
    let store = store_with(token, test_file_content, 0);

    let response = get_by_id(&store, token);
    assert_eq!(response.unwrap(), test_file_content.to_vec());
}

#[test]
fn test_get_pastebin_which_not_exist() {
    let store = PasteStore::new();
    let response = get_by_id(&store, "notexist");
    assert_eq!(response.unwrap_err(), PasteError::NotFound);
}

#[test]
fn test_delete_by_id() {
    let token = "a8b5e8bd-3b35-4865-886a-8103c5c27909";
    let mut store = store_with(token, b"", 0);
    let response = delete_by_id(&mut store, token);
    assert!(response.is_ok());
}

#[test]
fn test_delete_pastebin_which_not_exist() {
    let mut store = PasteStore::new();
    let response = delete_by_id(&mut store, "test");
    assert_eq!(response.unwrap_err(), PasteError::NotFound);
}

#[test]
fn test_update_by_id() {
    let token = "e62922ea-1d3a-4dc8-a5a3-52d973600bb9";
    let mut store = store_with(token, b"", 0);

    let body = b"Updated Pastebin";
    let response = update_by_id(&mut store, token, body.to_vec(), MAX_SIZE, 1);
    assert!(response.is_ok());
    assert_eq!(get_by_id(&store, token).unwrap(), body.to_vec());
}

#[test]
fn test_update_by_id_with_bad_id() {
    let mut store = PasteStore::new();
    let body = b"Updated Pastebin";
    let response = update_by_id(&mut store, "test", body.to_vec(), MAX_SIZE, 0);
    assert_eq!(response.unwrap_err(), PasteError::NotFound);
}
