//! The user record: the sole entity of the registry.

use vstd::prelude::*;

verus! {

/// Mathematical view of a [`User`]: the four column values as plain
/// mathematical data.
pub struct UserView {
    pub id: int,
    pub name: Seq<char>,
    pub address: Seq<char>,
    pub date_created: Seq<char>,
}

/// One row of the users table.
///
/// `id` is assigned by the table at insertion and never changes;
/// `name` and `address` are supplied by the client; `date_created` is a
/// timestamp string fixed at insertion and never updated afterward.
pub struct User {
    pub id: u64,
    pub name: String,
    pub address: String,
    pub date_created: String,
}

impl View for User {
    type V = UserView;

    open spec fn view(&self) -> UserView {
        UserView {
            id: self.id as int,
            name: self.name@,
            address: self.address@,
            date_created: self.date_created@,
        }
    }
}

impl Clone for User {
    /// A clone carries exactly the same column values.
    fn clone(&self) -> (r: Self)
        ensures
            r@ == self@,
    {
        User {
            id: self.id,
            name: self.name.clone(),
            address: self.address.clone(),
            date_created: self.date_created.clone(),
        }
    }
}

} // verus!
