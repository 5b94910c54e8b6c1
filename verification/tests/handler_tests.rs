use user_store::handler::{
    create_user, delete_user, get_users, update_user, STATUS_BAD_REQUEST, STATUS_CREATED,
    STATUS_NOT_FOUND, STATUS_OK,
};
use user_store::store::{NewUserRequest, Store, UserRecord};

#[test]
fn full_lifecycle_of_one_record() {
    let mut store = Store::new();

    let (status, created) = create_user(
        &mut store,
        Some(NewUserRequest { name: "Ann".to_string(), age: 30 }),
    );
    assert_eq!(status, 201);
    let created = created.unwrap();
    let u1 = created.id;
    assert_eq!(created.name, "Ann");
    assert_eq!(created.age, 30);

    let (status, listed) = get_users(&store);
    assert_eq!(status, 200);
    assert_eq!(listed.len(), 1);
    assert_eq!(listed[0].id, u1);
    assert_eq!(listed[0].name, "Ann");
    assert_eq!(listed[0].age, 30);

    let status = update_user(
        &mut store,
        Some(UserRecord { id: u1, name: "Ann".to_string(), age: 31 }),
    );
    assert_eq!(status, 200);

    let (_, listed) = get_users(&store);
    assert_eq!(listed.len(), 1);
    assert_eq!(listed[0].id, u1);
    assert_eq!(listed[0].name, "Ann");
    assert_eq!(listed[0].age, 31);

    let status = delete_user(&mut store, Some(u1));
    assert_eq!(status, 200);

    let (status, listed) = get_users(&store);
    assert_eq!(status, 200);
    assert_eq!(listed.len(), 0);
}

#[test]
fn update_with_unknown_id_is_not_found_and_store_unchanged() {
    let mut store = Store::new();
    let (_, created) = create_user(
        &mut store,
        Some(NewUserRequest { name: "Ann".to_string(), age: 30 }),
    );
    let known = created.unwrap().id;

    let status = update_user(
        &mut store,
        Some(UserRecord { id: known.wrapping_add(1), name: "X".to_string(), age: 1 }),
    );
    assert_eq!(status, STATUS_NOT_FOUND);

    let (_, listed) = get_users(&store);
    assert_eq!(listed.len(), 1);
    assert_eq!(listed[0].id, known);
    assert_eq!(listed[0].name, "Ann");
    assert_eq!(listed[0].age, 30);
}

#[test]
fn unparsed_payloads_are_bad_requests() {
    let mut store = Store::new();
    let (status, body) = create_user(&mut store, None);
    assert_eq!(status, STATUS_BAD_REQUEST);
    assert!(body.is_none());
    assert_eq!(update_user(&mut store, None), STATUS_BAD_REQUEST);
    assert_eq!(delete_user(&mut store, None), STATUS_BAD_REQUEST);
    assert_eq!(get_users(&store).1.len(), 0);
}

#[test]
fn delete_of_unknown_id_is_not_found() {
    let mut store = Store::new();
    assert_eq!(delete_user(&mut store, Some(7)), STATUS_NOT_FOUND);
}

#[test]
fn status_constants_match_http_codes() {
    assert_eq!(STATUS_OK, 200);
    assert_eq!(STATUS_CREATED, 201);
    assert_eq!(STATUS_BAD_REQUEST, 400);
    assert_eq!(STATUS_NOT_FOUND, 404);
}
