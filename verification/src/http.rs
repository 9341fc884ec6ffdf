//! Status codes and bodies of the three endpoints: the plaintext greeting
//! of the health-check root, the created-user object of the get-or-create
//! endpoint, and the user array of the list-all endpoint. Storage failures
//! surface as a bare 500 response.

use vstd::prelude::*;

use crate::json::{json_of_user, json_of_users, user_to_json, users_to_json};
use crate::table::{next_id, spec_get_or_create, UsersTable};
use crate::user::{User, UserView};

verus! {

/// Response of the health-check root: 200 and the fixed greeting.
pub fn root_response() -> (r: (u16, String))
    ensures
        r.0 == 200,
        r.1@ == "Hello World, Rust!"@,
{
    (200, String::from_str("Hello World, Rust!"))
}

/// Response around a found-or-created user: 201 on the found path and on
/// the creation path alike, with the row as a JSON object.
pub fn created_response(u: &User) -> (r: (u16, String))
    ensures
        r.0 == 201,
        r.1@ == json_of_user(u@),
{
    (201, user_to_json(u))
}

/// Response around a table scan: 200 with the rows as a JSON array.
pub fn users_response(users: &Vec<User>) -> (r: (u16, String))
    ensures
        r.0 == 200,
        r.1@ == json_of_users(users@.map_values(|u: User| u@)),
{
    (200, users_to_json(users))
}

/// Response when storage fails: 500 with no body detail.
pub fn storage_error_response() -> (r: (u16, String))
    ensures
        r.0 == 500,
        r.1@ == Seq::<char>::empty(),
{
    (500, String::new())
}

/// The whole get-or-create endpoint over the table: find the first row
/// named `name` or append a fresh one stamped with the current local time,
/// and answer 201 with that row as a JSON object.
pub fn handle_create_user(table: &mut UsersTable, name: &str, address: &str) -> (r: (u16, String))
    requires
        old(table).wf(),
        next_id(old(table)@) <= u64::MAX,
    ensures
        final(table).wf(),
        r.0 == 201,
        exists|u: UserView|
            {
                &&& final(table)@ == #[trigger] spec_get_or_create(
                    old(table)@,
                    name@,
                    address@,
                    u.date_created,
                ).0
                &&& u == spec_get_or_create(old(table)@, name@, address@, u.date_created).1
                &&& r.1@ == json_of_user(u)
            },
{
    let u = table.get_or_create_now(name, address);
    let body = user_to_json(&u);
    proof {
        assert(table@ == spec_get_or_create(old(table)@, name@, address@, u@.date_created).0);
    }
    (201, body)
}

/// The whole list-all endpoint over the table: answer 200 with every row,
/// in storage order, as a JSON array.
pub fn handle_get_users(table: &UsersTable) -> (r: (u16, String))
    ensures
        r.0 == 200,
        r.1@ == json_of_users(table@),
{
    let users = table.list_all();
    (200, users_to_json(&users))
}

} // verus!
