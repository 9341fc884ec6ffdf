//! Creation timestamps: reading the wall clock, and checking the shape of
//! the fixed-format, locale-naive date+time rendering used for
//! `date_created` (`YYYY-MM-DD HH:MM:SS` with an optional fractional-second
//! suffix).

use vstd::prelude::*;

verus! {

/// `c` is a decimal digit.
pub open spec fn is_digit_char(c: char) -> bool {
    48 <= (c as u32) && (c as u32) <= 57
}

/// What the character at position `j` of the date+time head must be:
/// `-` at 4 and 7, a space at 10, `:` at 13 and 16, a digit elsewhere.
pub open spec fn head_char_ok(s: Seq<char>, j: int) -> bool {
    if j == 4 || j == 7 {
        s[j] == '-'
    } else if j == 10 {
        s[j] == ' '
    } else if j == 13 || j == 16 {
        s[j] == ':'
    } else {
        is_digit_char(s[j])
    }
}

/// A syntactically valid timestamp: a 19-character `YYYY-MM-DD HH:MM:SS`
/// head, either alone or followed by `.` and at least one digit.
pub open spec fn valid_timestamp(s: Seq<char>) -> bool {
    &&& s.len() >= 19
    &&& forall|j: int| 0 <= j < 19 ==> head_char_ok(s, j)
    &&& (s.len() == 19 || (s.len() >= 21 && s[19] == '.' && forall|j: int|
        20 <= j < s.len() ==> is_digit_char(s[j])))
}

/// Decide whether `s` is a syntactically valid timestamp.
pub fn is_valid_timestamp(s: &str) -> (r: bool)
    ensures
        r == valid_timestamp(s@),
{
    let n = s.unicode_len();
    if n < 19 {
        return false;
    }
    let mut i: usize = 0;
    while i < 19
        invariant
            n == s@.len(),
            19 <= n,
            i <= 19,
            forall|j: int| 0 <= j < i ==> head_char_ok(s@, j),
        decreases 19 - i,
    {
        let c = s.get_char(i);
        let ok: bool = if i == 4 || i == 7 {
            c == '-'
        } else if i == 10 {
            c == ' '
        } else if i == 13 || i == 16 {
            c == ':'
        } else {
            let u = c as u32;
            48 <= u && u <= 57
        };
        if !ok {
            proof {
                assert(!head_char_ok(s@, i as int));
            }
            return false;
        }
        i += 1;
    }
    if n == 19 {
        return true;
    }
    if n < 21 {
        return false;
    }
    if s.get_char(19) != '.' {
        return false;
    }
    let mut j: usize = 20;
    while j < n
        invariant
            n == s@.len(),
            21 <= n,
            20 <= j <= n,
            forall|k: int| 20 <= k < j ==> is_digit_char(s@[k]),
        decreases n - j,
    {
        let c = s.get_char(j);
        let u = c as u32;
        if !(48 <= u && u <= 57) {
            return false;
        }
        j += 1;
    }
    true
}

/// Relies on `chrono::Local::now` and the `Display` rendering of
/// `chrono::NaiveDateTime`: the current local wall-clock time as a
/// fixed-format, locale-naive date+time string. The value depends on the
/// clock, so nothing is stated of it.
#[verifier::external_body]
pub(crate) fn now_timestamp() -> String {
    format!("{}", chrono::Local::now().naive_local())
}

} // verus!
