use user_service::http::{
    created_response, handle_create_user, handle_get_users, root_response, storage_error_response,
    users_response,
};
use user_service::table::UsersTable;
use user_service::timestamp::is_valid_timestamp;
use user_service::user::User;

#[test]
fn root_returns_fixed_greeting() {
    let (status, body) = root_response();
    assert_eq!(status, 200);
    assert_eq!(body, "Hello World, Rust!");
}

#[test]
fn create_user_on_empty_table() {
    let mut t = UsersTable::new();
    let (status, body) = handle_create_user(&mut t, "Ann", "1 Oak St");
    assert_eq!(status, 201);
    let users = t.list_all();
    assert_eq!(users.len(), 1);
    let u = &users[0];
    assert_eq!(u.id, 1);
    assert_eq!(u.name, "Ann");
    assert_eq!(u.address, "1 Oak St");
    let expected = format!(
        "{{\"id\":1,\"name\":\"Ann\",\"address\":\"1 Oak St\",\"date_created\":\"{}\"}}",
        u.date_created
    );
    assert_eq!(body, expected);
}

#[test]
fn create_user_is_idempotent_by_name() {
    let mut t = UsersTable::new();
    let (s1, b1) = handle_create_user(&mut t, "Ann", "1 Oak St");
    let (s2, b2) = handle_create_user(&mut t, "Ann", "2 Elm St");
    assert_eq!(s1, 201);
    assert_eq!(s2, 201);
    assert_eq!(b1, b2);
    let users = t.list_all();
    assert_eq!(users.len(), 1);
    assert_eq!(users[0].id, 1);
    assert_eq!(users[0].address, "1 Oak St");
    assert!(b2.contains("\"address\":\"1 Oak St\""));
    assert!(!b2.contains("2 Elm St"));
}

#[test]
fn second_name_gets_next_id() {
    let mut t = UsersTable::new();
    let a = t.get_or_create_now("Ann", "1 Oak St");
    let b = t.get_or_create_now("Bob", "3 Birch Rd");
    assert_eq!(a.id, 1);
    assert_eq!(b.id, 2);
    assert_eq!(t.list_all().len(), 2);
}

#[test]
fn get_users_after_create() {
    let mut t = UsersTable::new();
    handle_create_user(&mut t, "Ann", "1 Oak St");
    let stamp = t.list_all()[0].date_created.clone();
    let (status, body) = handle_get_users(&t);
    assert_eq!(status, 200);
    let expected = format!(
        "[{{\"id\":1,\"name\":\"Ann\",\"address\":\"1 Oak St\",\"date_created\":\"{}\"}}]",
        stamp
    );
    assert_eq!(body, expected);
}

#[test]
fn get_users_on_empty_table() {
    let t = UsersTable::new();
    let (status, body) = handle_get_users(&t);
    assert_eq!(status, 200);
    assert_eq!(body, "[]");
}

#[test]
fn date_created_is_fresh_and_kept() {
    let mut t = UsersTable::new();
    let u = t.get_or_create_now("Ann", "1 Oak St");
    assert!(is_valid_timestamp(&u.date_created));
    let v = t.get_or_create_now("Ann", "9 Pine St");
    assert_eq!(v.id, u.id);
    assert_eq!(v.date_created, u.date_created);
    assert_eq!(v.address, u.address);
}

#[test]
fn created_user_appears_in_list_all() {
    let mut t = UsersTable::new();
    t.get_or_create_now("Ann", "1 Oak St");
    let u = t.get_or_create_now("Bob", "3 Birch Rd");
    let all = t.list_all();
    assert!(all.iter().any(|w| w.id == u.id && w.name == u.name && w.address == u.address
        && w.date_created == u.date_created));
}

#[test]
fn created_response_matches_row_object() {
    let u = User {
        id: 7,
        name: String::from("Cara"),
        address: String::from("5 Fir Ln"),
        date_created: String::from("2015-09-18 23:56:04"),
    };
    let (status, body) = created_response(&u);
    assert_eq!(status, 201);
    assert_eq!(
        body,
        "{\"id\":7,\"name\":\"Cara\",\"address\":\"5 Fir Ln\",\"date_created\":\"2015-09-18 23:56:04\"}"
    );
}

#[test]
fn users_response_separates_rows_with_commas() {
    let a = User {
        id: 1,
        name: String::from("Ann"),
        address: String::from("1 Oak St"),
        date_created: String::from("2015-09-18 23:56:04"),
    };
    let b = User {
        id: 2,
        name: String::from("Bob"),
        address: String::from("3 Birch Rd"),
        date_created: String::from("2015-09-18 23:56:05"),
    };
    let (status, body) = users_response(&vec![a, b]);
    assert_eq!(status, 200);
    assert_eq!(
        body,
        "[{\"id\":1,\"name\":\"Ann\",\"address\":\"1 Oak St\",\"date_created\":\"2015-09-18 23:56:04\"},{\"id\":2,\"name\":\"Bob\",\"address\":\"3 Birch Rd\",\"date_created\":\"2015-09-18 23:56:05\"}]"
    );
}

#[test]
fn storage_error_gives_bare_500() {
    let (status, body) = storage_error_response();
    assert_eq!(status, 500);
    assert_eq!(body, "");
}
