//! The handler layer: maps the four inbound operations onto the record store
//! and the outcomes onto status codes. It holds no business logic of its own;
//! a payload that failed to parse reaches it as `None` and yields a bad
//! request, a missed lookup yields not found, everything else succeeds.

use vstd::prelude::*;
use crate::store::{has_id, NewUserRequest, Store, StoreError, UserRecord};

verus! {

pub const STATUS_OK: u16 = 200;

pub const STATUS_CREATED: u16 = 201;

pub const STATUS_BAD_REQUEST: u16 = 400;

pub const STATUS_NOT_FOUND: u16 = 404;

/// Lists all records: always a success, with a snapshot of the store in
/// insertion order as the body.
pub fn get_users(store: &Store) -> (r: (u16, Vec<UserRecord>))
    ensures
        r.0 == STATUS_OK,
        r.1@.len() == store.recs().len(),
        forall|i: int| 0 <= i < r.1@.len() ==> (#[trigger] r.1@[i])@ == store.recs()[i],
{
    (STATUS_OK, store.list())
}

/// Creates a record from the payload. A payload that failed to parse
/// reaches this as `None`, yields a bad request and leaves the store
/// untouched; otherwise the record, with its newly assigned id, is appended
/// to the store and returned under a created status.
pub fn create_user(store: &mut Store, body: Option<NewUserRequest>) -> (r: (u16, Option<
    UserRecord,
>))
    requires
        old(store).wf(),
    ensures
        final(store).wf(),
        body is None ==> r.0 == STATUS_BAD_REQUEST && r.1 is None && final(store).recs() == old(
            store,
        ).recs() && final(store).issued() == old(store).issued(),
        body matches Some(req) ==> r.0 == STATUS_CREATED && (r.1 matches Some(rec)
            && Store::create_post(*old(store), *final(store), req, rec)),
{
    match body {
        None => (STATUS_BAD_REQUEST, None),
        Some(req) => {
            let rec = store.create(req);
            (STATUS_CREATED, Some(rec))
        },
    }
}

/// Replaces the record named by the payload's id. A payload that failed to
/// parse yields a bad request and leaves the store untouched; an id no
/// current record carries yields not found and leaves the store untouched;
/// otherwise the record is overwritten in place and the call succeeds.
pub fn update_user(store: &mut Store, body: Option<UserRecord>) -> (status: u16)
    requires
        old(store).wf(),
    ensures
        final(store).wf(),
        final(store).issued() == old(store).issued(),
        body is None ==> status == STATUS_BAD_REQUEST && final(store).recs() == old(store).recs(),
        body matches Some(rec) ==> {
            &&& Store::replace_post(*old(store), *final(store), rec@, status == STATUS_OK)
            &&& (status == STATUS_OK || status == STATUS_NOT_FOUND)
            &&& (status == STATUS_NOT_FOUND <==> !has_id(old(store).recs(), rec@.id))
        },
{
    match body {
        None => STATUS_BAD_REQUEST,
        Some(rec) => match store.replace(rec) {
            Ok(()) => STATUS_OK,
            Err(StoreError::NotFound) => STATUS_NOT_FOUND,
        },
    }
}

/// Deletes the record with the given id. A path segment that was no valid
/// id reaches this as `None` and yields a bad request; an id no current
/// record carries yields not found; either way the store is untouched.
/// Otherwise the one record carrying the id is removed and the call
/// succeeds.
pub fn delete_user(store: &mut Store, id: Option<u128>) -> (status: u16)
    requires
        old(store).wf(),
    ensures
        final(store).wf(),
        final(store).issued() == old(store).issued(),
        id is None ==> status == STATUS_BAD_REQUEST && final(store).recs() == old(store).recs(),
        id matches Some(i) ==> {
            &&& Store::delete_post(*old(store), *final(store), i, status == STATUS_OK)
            &&& (status == STATUS_OK || status == STATUS_NOT_FOUND)
            &&& (status == STATUS_NOT_FOUND <==> !has_id(old(store).recs(), i))
        },
{
    match id {
        None => STATUS_BAD_REQUEST,
        Some(i) => match store.delete(i) {
            Ok(()) => STATUS_OK,
            Err(StoreError::NotFound) => STATUS_NOT_FOUND,
        },
    }
}

} // verus!
