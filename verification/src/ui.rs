//! Human-facing coordinate notation: a row letter `A`–`J` (either case)
//! followed by a column digit `0`–`9`, as in `E5`.

use vstd::prelude::*;
use vstd::string::StrSliceExecFns;

verus! {

/// A row letter, upper or lower case.
pub open spec fn is_row_char(c: char) -> bool {
    (65 <= c as int <= 74) || (97 <= c as int <= 106)
}

/// The row a letter denotes, `A` and `a` being row zero.
pub open spec fn row_val(c: char) -> int {
    if c as int <= 74 {
        c as int - 65
    } else {
        c as int - 97
    }
}

/// A column digit.
pub open spec fn is_digit_char(c: char) -> bool {
    48 <= c as int <= 57
}

/// What `parse_coord` yields: the (column, row) pair named by the first
/// two characters, or nothing when they do not name one.
pub open spec fn parse_coord_spec(s: Seq<char>) -> Option<(u8, u8)> {
    if s.len() >= 2 && is_row_char(s[0]) && is_digit_char(s[1]) {
        Some((((s[1] as int - 48) as u8), (row_val(s[0]) as u8)))
    } else {
        None
    }
}

/// Parse a coordinate such as `E5` into a (column, row) pair. Characters
/// after the first two are ignored.
pub fn parse_coord(c: &str) -> (r: Option<(u8, u8)>)
    ensures
        r == parse_coord_spec(c@),
        r matches Some(p) ==> p.0 < 10 && p.1 < 10,
{
    let n = c.unicode_len();
    if n < 2 {
        return None;
    }
    let y = c.get_char(0);
    let x = c.get_char(1);
    let yv = y as u32;
    let xv = x as u32;
    if !((65 <= yv && yv <= 74) || (97 <= yv && yv <= 106)) {
        return None;
    }
    if !(48 <= xv && xv <= 57) {
        return None;
    }
    let row: u8 = if yv <= 74 {
        (yv - 65) as u8
    } else {
        (yv - 97) as u8
    };
    let col: u8 = (xv - 48) as u8;
    Some((col, row))
}

} // verus!
