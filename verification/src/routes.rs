//! The request-level operations: what each endpoint decides and computes,
//! from plain values to plain values.
//!
//! Every externally supplied identifier goes through validation first, and
//! a malformed one is answered exactly like a missing one — `NotFound`,
//! never a distinct error — so a probing client learns nothing about the
//! identifier format.

use vstd::prelude::*;

use crate::models::{lang_class, Lang, PasteError, SendPastebin};
use crate::paste_id::{valid_token, PasteId};
use crate::store::PasteStore;
use vstd::utf8::encode_utf8;

verus! {

/// Create a new paste from raw uploaded bytes under a freshly minted
/// identifier, and hand that identifier back.
pub fn upload(store: &mut PasteStore, content: Vec<u8>, max_size: usize, now: u64) -> (r: Result<
    PasteId,
    PasteError,
>)
    requires
        old(store).wf(),
    ensures
        final(store).wf(),
        content@.len() > max_size ==> r == Err::<PasteId, PasteError>(PasteError::PayloadTooLarge)
            && final(store)@ == old(store)@,
        content@.len() <= max_size ==> (r matches Ok(id) && id.wf() && final(store)@ == old(
            store,
        )@.insert(id@, (content@, now))),
{
    let id = PasteId::new();
    let handle = id.clone();
    match store.create(id, content, max_size, now) {
        Ok(_) => Ok(handle),
        Err(e) => Err(e),
    }
}

/// Create a new paste from the web form and resolve its language tag, so
/// the caller can redirect to the highlighted view.
pub fn upload_form(store: &mut PasteStore, form: SendPastebin, max_size: usize, now: u64) -> (r:
    Result<(PasteId, Lang), PasteError>)
    requires
        old(store).wf(),
    ensures
        final(store).wf(),
        encode_utf8(form.raw_content@).len() > max_size ==> r == Err::<
            (PasteId, Lang),
            PasteError,
        >(PasteError::PayloadTooLarge) && final(store)@ == old(store)@,
        encode_utf8(form.raw_content@).len() <= max_size ==> (r matches Ok(p) && p.0.wf() && p.1@
            == lang_class(form.lang@) && final(store)@ == old(store)@.insert(
            p.0@,
            (encode_utf8(form.raw_content@), now),
        )),
{
    let content = form.raw_content.as_str().as_bytes_vec();
    let lang = Lang::from_param(form.lang.as_str());
    match upload(store, content, max_size, now) {
        Ok(id) => Ok((id, lang)),
        Err(e) => Err(e),
    }
}

/// Fetch the stored bytes of a paste by its external token. A token that is
/// not in the generation format, or one no entry holds, is `NotFound`.
pub fn get_by_id(store: &PasteStore, token: &str) -> (r: Result<Vec<u8>, PasteError>)
    requires
        store.wf(),
    ensures
        valid_token(token@) && store@.contains_key(token@) ==> (r matches Ok(c) && c@ == store@[
            token@
        ].0),
        !(valid_token(token@) && store@.contains_key(token@)) ==> r == Err::<Vec<u8>, PasteError>(
            PasteError::NotFound,
        ),
{
    match PasteId::from_param(token) {
        Ok(id) => store.read(&id),
        Err(_) => Err(PasteError::NotFound),
    }
}

/// Fetch a paste together with the syntax-highlight class for `lang_tag`,
/// for the rendered web view.
pub fn show_pastebin(store: &PasteStore, token: &str, lang_tag: &str) -> (r: Result<
    (Vec<u8>, Lang),
    PasteError,
>)
    requires
        store.wf(),
    ensures
        valid_token(token@) && store@.contains_key(token@) ==> (r matches Ok(p) && p.0@ == store@[
            token@
        ].0 && p.1@ == lang_class(lang_tag@)),
        !(valid_token(token@) && store@.contains_key(token@)) ==> r == Err::<
            (Vec<u8>, Lang),
            PasteError,
        >(PasteError::NotFound),
{
    match get_by_id(store, token) {
        Ok(content) => Ok((content, Lang::from_param(lang_tag))),
        Err(e) => Err(e),
    }
}

/// Delete a paste by its external token; a malformed or unknown token is
/// `NotFound`, and deletion of an already-gone paste reports `NotFound` too.
pub fn delete_by_id(store: &mut PasteStore, token: &str) -> (r: Result<(), PasteError>)
    requires
        old(store).wf(),
    ensures
        final(store).wf(),
        valid_token(token@) && old(store)@.contains_key(token@) ==> r == Ok::<(), PasteError>(())
            && final(store)@ == old(store)@.remove(token@),
        !(valid_token(token@) && old(store)@.contains_key(token@)) ==> r == Err::<(), PasteError>(
            PasteError::NotFound,
        ) && final(store)@ == old(store)@,
{
    match PasteId::from_param(token) {
        Ok(id) => store.delete(&id),
        Err(_) => Err(PasteError::NotFound),
    }
}

/// Overwrite an existing paste by its external token, refreshing its
/// eviction clock; the entry must already exist and the new content must
/// fit the size ceiling.
pub fn update_by_id(
    store: &mut PasteStore,
    token: &str,
    content: Vec<u8>,
    max_size: usize,
    now: u64,
) -> (r: Result<(), PasteError>)
    requires
        old(store).wf(),
    ensures
        final(store).wf(),
        !(valid_token(token@) && old(store)@.contains_key(token@)) ==> r == Err::<(), PasteError>(
            PasteError::NotFound,
        ) && final(store)@ == old(store)@,
        valid_token(token@) && old(store)@.contains_key(token@) && content@.len() > max_size ==> r
            == Err::<(), PasteError>(PasteError::PayloadTooLarge) && final(store)@ == old(store)@,
        valid_token(token@) && old(store)@.contains_key(token@) && content@.len() <= max_size ==> r
            == Ok::<(), PasteError>(()) && final(store)@ == old(store)@.insert(
            token@,
            (content@, now),
        ),
{
    match PasteId::from_param(token) {
        Ok(id) => store.replace(&id, content, max_size, now),
        Err(_) => Err(PasteError::NotFound),
    }
}

} // verus!
