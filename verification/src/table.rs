//! The users table: an append-only sequence of rows with auto-assigned,
//! strictly increasing ids, and find-or-create-by-name semantics.
//!
//! A lookup scans the table in storage order and takes the first row whose
//! name matches; a miss appends a fresh row whose id is one past the last
//! row's id (one, on an empty table) and whose creation timestamp is fixed
//! at insertion. Rows are never updated or deleted.

use vstd::prelude::*;

use crate::timestamp::now_timestamp;
use crate::user::{User, UserView};

verus! {

/// Index of the first row of `rows` whose name is `name`, or -1 when no
/// row matches.
pub open spec fn first_match_idx(rows: Seq<UserView>, name: Seq<char>) -> int
    decreases rows.len(),
{
    if rows.len() == 0 {
        -1
    } else if rows[0].name == name {
        0
    } else {
        let r = first_match_idx(rows.drop_first(), name);
        if r < 0 {
            -1
        } else {
            r + 1
        }
    }
}

/// Some row of `rows` is named `name`.
pub open spec fn contains_name(rows: Seq<UserView>, name: Seq<char>) -> bool {
    exists|i: int| 0 <= i < rows.len() && rows[i].name == name
}

/// `first_match_idx` finds the first match when one exists, and -1 otherwise.
pub proof fn lemma_first_match_idx(rows: Seq<UserView>, name: Seq<char>)
    ensures
        contains_name(rows, name) ==> {
            let i = first_match_idx(rows, name);
            &&& 0 <= i < rows.len()
            &&& rows[i].name == name
            &&& forall|j: int| 0 <= j < i ==> rows[j].name != name
        },
        !contains_name(rows, name) ==> first_match_idx(rows, name) == -1,
    decreases rows.len(),
{
    if rows.len() == 0 {
    } else if rows[0].name == name {
    } else {
        lemma_first_match_idx(rows.drop_first(), name);
        if contains_name(rows, name) {
            let w = choose|w: int| 0 <= w < rows.len() && rows[w].name == name;
            assert(rows.drop_first()[w - 1] == rows[w]);
            assert(contains_name(rows.drop_first(), name));
            let r = first_match_idx(rows.drop_first(), name);
            assert(rows[r + 1] == rows.drop_first()[r]);
            assert(forall|j: int| 1 <= j < r + 1 ==> rows[j] == rows.drop_first()[j - 1]);
        } else {
            assert(forall|j: int|
                0 <= j < rows.drop_first().len() ==> rows.drop_first()[j] == rows[j + 1]);
            assert(!contains_name(rows.drop_first(), name));
        }
    }
}

/// Appending a row named `name` to a table with no such name puts the first
/// match exactly at the old length.
pub proof fn lemma_first_match_idx_push(rows: Seq<UserView>, name: Seq<char>, v: UserView)
    requires
        first_match_idx(rows, name) == -1,
        v.name == name,
    ensures
        first_match_idx(rows.push(v), name) == rows.len(),
    decreases rows.len(),
{
    lemma_first_match_idx(rows, name);
    if rows.len() == 0 {
        assert(rows.push(v)[0] == v);
    } else {
        assert(rows[0] == rows.push(v)[0]);
        assert(rows[0].name != name) by {
            assert(contains_name(rows, name) ==> first_match_idx(rows, name) != -1);
        }
        assert(rows.push(v).drop_first() =~= rows.drop_first().push(v));
        assert(first_match_idx(rows.drop_first(), name) == -1) by {
            lemma_first_match_idx(rows.drop_first(), name);
            if contains_name(rows.drop_first(), name) {
                let w = choose|w: int|
                    0 <= w < rows.drop_first().len() && rows.drop_first()[w].name == name;
                assert(rows[w + 1] == rows.drop_first()[w]);
                assert(contains_name(rows, name));
            }
        }
        lemma_first_match_idx_push(rows.drop_first(), name, v);
    }
}

/// The id the table will assign to the next inserted row: one past the last
/// row's id, or 1 on an empty table.
pub open spec fn next_id(rows: Seq<UserView>) -> int {
    if rows.len() == 0 {
        1
    } else {
        rows[rows.len() - 1].id + 1
    }
}

/// Table well-formedness: ids are at least 1 and strictly increase in
/// storage order (so each id occurs once).
pub open spec fn wf_rows(rows: Seq<UserView>) -> bool {
    &&& forall|i: int| 0 <= i < rows.len() ==> rows[i].id >= 1
    &&& forall|i: int, j: int| 0 <= i < j < rows.len() ==> rows[i].id < rows[j].id
}

/// What one get-or-create call does to the table: the resulting table and
/// the returned row. A hit returns the first matching row and leaves the
/// table unchanged (the supplied address and timestamp are discarded); a
/// miss appends a fresh row built from the arguments and returns it.
pub open spec fn spec_get_or_create(
    rows: Seq<UserView>,
    name: Seq<char>,
    address: Seq<char>,
    stamp: Seq<char>,
) -> (Seq<UserView>, UserView) {
    let i = first_match_idx(rows, name);
    if i >= 0 {
        (rows, rows[i])
    } else {
        let u = UserView { id: next_id(rows), name: name, address: address, date_created: stamp };
        (rows.push(u), u)
    }
}

/// The users table.
pub struct UsersTable {
    rows: Vec<User>,
}

impl View for UsersTable {
    type V = Seq<UserView>;

    closed spec fn view(&self) -> Seq<UserView> {
        self.rows@.map_values(|u: User| u@)
    }
}

impl UsersTable {
    /// The table's invariant.
    pub open spec fn wf(&self) -> bool {
        wf_rows(self@)
    }

    /// An empty table.
    pub fn new() -> (r: Self)
        ensures
            r@ == Seq::<UserView>::empty(),
            r.wf(),
    {
        let r = UsersTable { rows: Vec::new() };
        proof {
            assert(r@ =~= Seq::<UserView>::empty());
        }
        r
    }

    /// Index of the first row named `name`, if any.
    fn find_index(&self, name: &String) -> (r: Option<usize>)
        ensures
            match r {
                Some(i) => i == first_match_idx(self@, name@) && i < self@.len(),
                None => first_match_idx(self@, name@) == -1,
            },
    {
        proof {
            lemma_first_match_idx(self@, name@);
        }
        let n = self.rows.len();
        for i in 0..n
            invariant
                n == self.rows.len(),
                forall|j: int| 0 <= j < i ==> self@[j].name != name@,
                contains_name(self@, name@) ==> {
                    let k = first_match_idx(self@, name@);
                    &&& 0 <= k < self@.len()
                    &&& self@[k].name == name@
                    &&& forall|j: int| 0 <= j < k ==> self@[j].name != name@
                },
                !contains_name(self@, name@) ==> first_match_idx(self@, name@) == -1,
        {
            if self.rows[i].name.eq(name) {
                proof {
                    assert(self@[i as int].name == name@);
                    assert(contains_name(self@, name@));
                    let k = first_match_idx(self@, name@);
                    assert(!(k < i)) by {
                        if k < i {
                            assert(self@[k].name != name@);
                        }
                    }
                    assert(!(k > i)) by {
                        if k > i {
                            assert(self@[i as int].name != name@);
                        }
                    }
                }
                return Some(i);
            }
        }
        proof {
            if contains_name(self@, name@) {
                let k = first_match_idx(self@, name@);
                assert(self@[k].name != name@);
            }
        }
        None
    }

    /// Find the first row named `name`, or append a fresh row carrying
    /// `name`, `address` and `date_created` under the next id. On a hit the
    /// stored row is returned unchanged and `address` and `date_created`
    /// are discarded.
    pub fn get_or_create(&mut self, name: &str, address: &str, date_created: String) -> (u: User)
        requires
            old(self).wf(),
            next_id(old(self)@) <= u64::MAX,
        ensures
            final(self).wf(),
            final(self)@ == spec_get_or_create(old(self)@, name@, address@, date_created@).0,
            u@ == spec_get_or_create(old(self)@, name@, address@, date_created@).1,
    {
        let name_owned = String::from_str(name);
        match self.find_index(&name_owned) {
            Some(i) => {
                let u = self.rows[i].clone();
                u
            },
            None => {
                let id: u64 = if self.rows.len() == 0 {
                    1
                } else {
                    self.rows[self.rows.len() - 1].id + 1
                };
                let u = User {
                    id,
                    name: name_owned,
                    address: String::from_str(address),
                    date_created,
                };
                let ghost old_rows = self@;
                self.rows.push(u.clone());
                proof {
                    assert(self@ =~= old_rows.push(u@));
                    lemma_first_match_idx(old_rows, name@);
                    assert(self@ == spec_get_or_create(old_rows, name@, address@, u.date_created@).0);
                }
                u
            },
        }
    }

    /// Find the first row named `name`, or append a fresh row whose
    /// creation timestamp is the current local time.
    ///
    /// The ensures fixes everything about the result except which instant
    /// the clock returned: on a miss the new row's timestamp is whatever
    /// `date_created` the returned row carries.
    pub fn get_or_create_now(&mut self, name: &str, address: &str) -> (u: User)
        requires
            old(self).wf(),
            next_id(old(self)@) <= u64::MAX,
        ensures
            final(self).wf(),
            final(self)@ == spec_get_or_create(old(self)@, name@, address@, u@.date_created).0,
            u@ == spec_get_or_create(old(self)@, name@, address@, u@.date_created).1,
    {
        let stamp = now_timestamp();
        self.get_or_create(name, address, stamp)
    }

    /// Every row of the table, in storage order.
    pub fn list_all(&self) -> (r: Vec<User>)
        ensures
            r@.map_values(|u: User| u@) == self@,
    {
        let mut out: Vec<User> = Vec::new();
        let n = self.rows.len();
        for i in 0..n
            invariant
                n == self.rows.len(),
                out@.len() == i,
                forall|k: int| 0 <= k < i ==> out@[k]@ == self@[k],
        {
            out.push(self.rows[i].clone());
        }
        proof {
            assert forall|k: int| 0 <= k < out@.len() implies out@.map_values(|u: User| u@)[k]
                == #[trigger] self@[k] by {
                assert(out@[k]@ == self@[k]);
            }
            assert(out@.map_values(|u: User| u@) =~= self@);
        }
        out
    }
}

/// Idempotence by name: two get-or-create calls with the same name return
/// the same row — same id, and the address and timestamp stored by the
/// first call — whatever address and timestamp the second call supplies,
/// and the second call leaves the table unchanged.
pub proof fn lemma_get_or_create_idempotent_by_name(
    rows: Seq<UserView>,
    name: Seq<char>,
    a1: Seq<char>,
    t1: Seq<char>,
    a2: Seq<char>,
    t2: Seq<char>,
)
    ensures
        ({
            let (rows1, u1) = spec_get_or_create(rows, name, a1, t1);
            let (rows2, u2) = spec_get_or_create(rows1, name, a2, t2);
            &&& rows2 == rows1
            &&& u2 == u1
        }),
{
    let i = first_match_idx(rows, name);
    if i >= 0 {
    } else {
        let u1 = UserView { id: next_id(rows), name: name, address: a1, date_created: t1 };
        lemma_first_match_idx_push(rows, name, u1);
        assert(rows.push(u1)[rows.len() as int] == u1);
    }
}

/// Round trip: the row a get-or-create call returns stands in the
/// resulting table, with identical field values.
pub proof fn lemma_get_or_create_round_trip(
    rows: Seq<UserView>,
    name: Seq<char>,
    address: Seq<char>,
    stamp: Seq<char>,
)
    ensures
        ({
            let (rows1, u1) = spec_get_or_create(rows, name, address, stamp);
            exists|i: int| 0 <= i < rows1.len() && rows1[i] == u1
        }),
{
    let i = first_match_idx(rows, name);
    if i >= 0 {
        lemma_first_match_idx(rows, name);
        assert(contains_name(rows, name));
        let (rows1, u1) = spec_get_or_create(rows, name, address, stamp);
        assert(rows1[i] == u1);
    } else {
        let (rows1, u1) = spec_get_or_create(rows, name, address, stamp);
        assert(rows1[rows.len() as int] == u1);
    }
}

} // verus!
