//! JSON rendering of users: a user as an object of its four columns, a
//! table as an array of such objects, with string values escaped in the
//! usual JSON way.

use vstd::prelude::*;

use crate::user::{User, UserView};

verus! {

/// Relies on `String::push` of std: appends the character to the end of
/// the string.
pub assume_specification[ String::push ](s: &mut String, ch: char)
    ensures
        final(s)@ == old(s)@ + seq![ch],
;

/// The hexadecimal digit character of a value below 16, lower case.
pub open spec fn hex_digit(n: int) -> char {
    if n == 0 {
        '0'
    } else if n == 1 {
        '1'
    } else if n == 2 {
        '2'
    } else if n == 3 {
        '3'
    } else if n == 4 {
        '4'
    } else if n == 5 {
        '5'
    } else if n == 6 {
        '6'
    } else if n == 7 {
        '7'
    } else if n == 8 {
        '8'
    } else if n == 9 {
        '9'
    } else if n == 10 {
        'a'
    } else if n == 11 {
        'b'
    } else if n == 12 {
        'c'
    } else if n == 13 {
        'd'
    } else if n == 14 {
        'e'
    } else {
        'f'
    }
}

/// Decimal rendering of a nonnegative integer, without leading zeros.
pub open spec fn dec_str(n: int) -> Seq<char>
    decreases n,
{
    if n < 10 {
        seq![hex_digit(n)]
    } else {
        dec_str(n / 10).push(hex_digit(n % 10))
    }
}

/// JSON escape of one character: a two-character escape for the quote,
/// the backslash and the common control characters, a `\u00XX` escape for
/// the other control characters, and the character itself otherwise.
pub open spec fn escape_char(c: char) -> Seq<char> {
    if c == '"' {
        seq!['\\', '"']
    } else if c == '\\' {
        seq!['\\', '\\']
    } else if c == '\u{8}' {
        seq!['\\', 'b']
    } else if c == '\u{c}' {
        seq!['\\', 'f']
    } else if c == '\n' {
        seq!['\\', 'n']
    } else if c == '\r' {
        seq!['\\', 'r']
    } else if c == '\t' {
        seq!['\\', 't']
    } else if (c as u32) < 32 {
        seq!['\\', 'u', '0', '0', hex_digit((c as u32) as int / 16), hex_digit(
            (c as u32) as int % 16,
        )]
    } else {
        seq![c]
    }
}

/// JSON escape of a whole string.
pub open spec fn escape_str(s: Seq<char>) -> Seq<char>
    decreases s.len(),
{
    if s.len() == 0 {
        Seq::empty()
    } else {
        escape_char(s[0]) + escape_str(s.drop_first())
    }
}

/// Escaping a string one character longer appends that character's escape.
pub proof fn lemma_escape_str_push(s: Seq<char>, c: char)
    ensures
        escape_str(s.push(c)) == escape_str(s) + escape_char(c),
    decreases s.len(),
{
    if s.len() == 0 {
        assert(s.push(c)[0] == c);
        assert(s.push(c).drop_first() =~= Seq::<char>::empty());
        assert(escape_str(s.push(c)) == escape_char(c) + escape_str(Seq::<char>::empty()));
        assert(escape_char(c) + escape_str(Seq::<char>::empty()) =~= escape_str(s) + escape_char(
            c,
        ));
    } else {
        assert(s.push(c)[0] == s[0]);
        assert(s.push(c).drop_first() =~= s.drop_first().push(c));
        lemma_escape_str_push(s.drop_first(), c);
        assert(escape_str(s.push(c)) == escape_char(s[0]) + (escape_str(s.drop_first())
            + escape_char(c)));
        assert(escape_char(s[0]) + (escape_str(s.drop_first()) + escape_char(c)) =~= escape_str(s)
            + escape_char(c));
    }
}

/// The JSON object rendering a user: its id, name, address and creation
/// timestamp, in that order, under their column names.
pub open spec fn json_of_user(u: UserView) -> Seq<char> {
    "{\"id\":"@ + dec_str(u.id) + ",\"name\":\""@ + escape_str(u.name) + "\",\"address\":\""@
        + escape_str(u.address) + "\",\"date_created\":\""@ + escape_str(u.date_created) + "\"}"@
}

/// The comma-separated JSON objects of a sequence of users, in order.
pub open spec fn json_items(rows: Seq<UserView>) -> Seq<char>
    decreases rows.len(),
{
    if rows.len() == 0 {
        Seq::empty()
    } else if rows.len() == 1 {
        json_of_user(rows[0])
    } else {
        json_items(rows.drop_last()) + ","@ + json_of_user(rows.last())
    }
}

/// One more user appends a comma (except to an empty list) and its object.
pub proof fn lemma_json_items_push(rows: Seq<UserView>, v: UserView)
    ensures
        rows.len() == 0 ==> json_items(rows.push(v)) == json_of_user(v),
        rows.len() > 0 ==> json_items(rows.push(v)) == json_items(rows) + ","@ + json_of_user(v),
{
    assert(rows.push(v).drop_last() =~= rows);
    assert(rows.push(v).last() == v);
    if rows.len() == 0 {
        assert(rows.push(v)[0] == v);
    }
}

/// The JSON array rendering a sequence of users.
pub open spec fn json_of_users(rows: Seq<UserView>) -> Seq<char> {
    "["@ + json_items(rows) + "]"@
}

/// An empty table renders as the empty array, not an error.
pub proof fn lemma_empty_table_renders_empty_array()
    ensures
        json_of_users(Seq::<UserView>::empty()) == "[]"@,
{
    reveal_strlit("[");
    reveal_strlit("]");
    reveal_strlit("[]");
    assert("["@ + json_items(Seq::<UserView>::empty()) + "]"@ =~= "[]"@);
}

/// The hexadecimal digit character of a value below 16, lower case.
fn hex_digit_char(n: u64) -> (c: char)
    requires
        n < 16,
    ensures
        c == hex_digit(n as int),
{
    if n == 0 {
        '0'
    } else if n == 1 {
        '1'
    } else if n == 2 {
        '2'
    } else if n == 3 {
        '3'
    } else if n == 4 {
        '4'
    } else if n == 5 {
        '5'
    } else if n == 6 {
        '6'
    } else if n == 7 {
        '7'
    } else if n == 8 {
        '8'
    } else if n == 9 {
        '9'
    } else if n == 10 {
        'a'
    } else if n == 11 {
        'b'
    } else if n == 12 {
        'c'
    } else if n == 13 {
        'd'
    } else if n == 14 {
        'e'
    } else {
        'f'
    }
}

/// Decimal rendering of an unsigned integer.
pub fn u64_to_dec(n: u64) -> (r: String)
    ensures
        r@ == dec_str(n as int),
    decreases n,
{
    if n < 10 {
        let mut s = String::new();
        s.push(hex_digit_char(n));
        proof {
            assert(s@ =~= dec_str(n as int));
        }
        s
    } else {
        let mut s = u64_to_dec(n / 10);
        s.push(hex_digit_char(n % 10));
        proof {
            assert(s@ =~= dec_str(n as int));
        }
        s
    }
}

/// JSON escape of a string.
pub fn escape_to_string(s: &str) -> (r: String)
    ensures
        r@ == escape_str(s@),
{
    let mut r = String::new();
    let n = s.unicode_len();
    for i in 0..n
        invariant
            n == s@.len(),
            r@ == escape_str(s@.subrange(0, i as int)),
    {
        let ghost prefix = s@.subrange(0, i as int);
        let c = s.get_char(i);
        if c == '"' {
            r.push('\\');
            r.push('"');
        } else if c == '\\' {
            r.push('\\');
            r.push('\\');
        } else if c == '\u{8}' {
            r.push('\\');
            r.push('b');
        } else if c == '\u{c}' {
            r.push('\\');
            r.push('f');
        } else if c == '\n' {
            r.push('\\');
            r.push('n');
        } else if c == '\r' {
            r.push('\\');
            r.push('r');
        } else if c == '\t' {
            r.push('\\');
            r.push('t');
        } else {
            let u = c as u32;
            if u < 32 {
                r.push('\\');
                r.push('u');
                r.push('0');
                r.push('0');
                r.push(hex_digit_char((u / 16) as u64));
                r.push(hex_digit_char((u % 16) as u64));
            } else {
                r.push(c);
            }
        }
        proof {
            lemma_escape_str_push(prefix, s@[i as int]);
            assert(s@.subrange(0, i + 1) =~= prefix.push(s@[i as int]));
            assert(r@ =~= escape_str(prefix) + escape_char(s@[i as int]));
        }
    }
    proof {
        assert(s@.subrange(0, n as int) =~= s@);
    }
    r
}

/// The JSON object of one user.
pub fn user_to_json(u: &User) -> (r: String)
    ensures
        r@ == json_of_user(u@),
{
    let mut r = String::from_str("{\"id\":");
    let ds = u64_to_dec(u.id);
    r.append(ds.as_str());
    r.append(",\"name\":\"");
    let en = escape_to_string(u.name.as_str());
    r.append(en.as_str());
    r.append("\",\"address\":\"");
    let ea = escape_to_string(u.address.as_str());
    r.append(ea.as_str());
    r.append("\",\"date_created\":\"");
    let ed = escape_to_string(u.date_created.as_str());
    r.append(ed.as_str());
    r.append("\"}");
    proof {
        assert(r@ =~= json_of_user(u@));
    }
    r
}

/// The JSON array of a sequence of users.
pub fn users_to_json(users: &Vec<User>) -> (r: String)
    ensures
        r@ == json_of_users(users@.map_values(|u: User| u@)),
{
    let ghost rows = users@.map_values(|u: User| u@);
    let mut r = String::from_str("[");
    let n = users.len();
    for i in 0..n
        invariant
            n == users@.len(),
            rows == users@.map_values(|u: User| u@),
            rows.len() == n,
            r@ == "["@ + json_items(rows.subrange(0, i as int)),
    {
        if i > 0 {
            r.append(",");
        }
        let item = user_to_json(&users[i]);
        r.append(item.as_str());
        proof {
            let prefix = rows.subrange(0, i as int);
            assert(rows.subrange(0, i + 1) =~= prefix.push(rows[i as int]));
            assert(rows[i as int] == users@[i as int]@);
            lemma_json_items_push(prefix, rows[i as int]);
            assert(r@ =~= "["@ + json_items(rows.subrange(0, i + 1)));
        }
    }
    r.append("]");
    proof {
        assert(rows.subrange(0, n as int) =~= rows);
        assert(r@ =~= json_of_users(rows));
    }
    r
}

} // verus!
