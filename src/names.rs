//! English month and weekday names.

use vstd::prelude::*;

verus! {

/// Full English name of month `m` (`1..=12`), as ASCII bytes.
pub open spec fn month_name(m: u8) -> Seq<u8> {
    match m {
        1 => seq![74u8, 97, 110, 117, 97, 114, 121],
        2 => seq![70u8, 101, 98, 114, 117, 97, 114, 121],
        3 => seq![77u8, 97, 114, 99, 104],
        4 => seq![65u8, 112, 114, 105, 108],
        5 => seq![77u8, 97, 121],
        6 => seq![74u8, 117, 110, 101],
        7 => seq![74u8, 117, 108, 121],
        8 => seq![65u8, 117, 103, 117, 115, 116],
        9 => seq![83u8, 101, 112, 116, 101, 109, 98, 101, 114],
        10 => seq![79u8, 99, 116, 111, 98, 101, 114],
        11 => seq![78u8, 111, 118, 101, 109, 98, 101, 114],
        _ => seq![68u8, 101, 99, 101, 109, 98, 101, 114],
    }
}

/// Full English name of weekday `d` (`0..=6`, from Sunday).
pub open spec fn day_name(d: u8) -> Seq<u8> {
    match d {
        0 => seq![83u8, 117, 110, 100, 97, 121],
        1 => seq![77u8, 111, 110, 100, 97, 121],
        2 => seq![84u8, 117, 101, 115, 100, 97, 121],
        3 => seq![87u8, 101, 100, 110, 101, 115, 100, 97, 121],
        4 => seq![84u8, 104, 117, 114, 115, 100, 97, 121],
        5 => seq![70u8, 114, 105, 100, 97, 121],
        _ => seq![83u8, 97, 116, 117, 114, 100, 97, 121],
    }
}

/// Full English name of month `m`.
pub fn month_name_bytes(m: u8) -> (r: Vec<u8>)
    requires
        1 <= m <= 12,
    ensures
        r@ == month_name(m),
        r@.len() >= 3,
{
    let v: Vec<u8> = match m {
        1 => vec![74u8, 97, 110, 117, 97, 114, 121],
        2 => vec![70u8, 101, 98, 114, 117, 97, 114, 121],
        3 => vec![77u8, 97, 114, 99, 104],
        4 => vec![65u8, 112, 114, 105, 108],
        5 => vec![77u8, 97, 121],
        6 => vec![74u8, 117, 110, 101],
        7 => vec![74u8, 117, 108, 121],
        8 => vec![65u8, 117, 103, 117, 115, 116],
        9 => vec![83u8, 101, 112, 116, 101, 109, 98, 101, 114],
        10 => vec![79u8, 99, 116, 111, 98, 101, 114],
        11 => vec![78u8, 111, 118, 101, 109, 98, 101, 114],
        _ => vec![68u8, 101, 99, 101, 109, 98, 101, 114],
    };
    assert(v@ =~= month_name(m));
    v
}

/// Full English name of weekday `d`.
pub fn day_name_bytes(d: u8) -> (r: Vec<u8>)
    requires
        d <= 6,
    ensures
        r@ == day_name(d),
        r@.len() >= 3,
{
    let v: Vec<u8> = match d {
        0 => vec![83u8, 117, 110, 100, 97, 121],
        1 => vec![77u8, 111, 110, 100, 97, 121],
        2 => vec![84u8, 117, 101, 115, 100, 97, 121],
        3 => vec![87u8, 101, 100, 110, 101, 115, 100, 97, 121],
        4 => vec![84u8, 104, 117, 114, 115, 100, 97, 121],
        5 => vec![70u8, 114, 105, 100, 97, 121],
        _ => vec![83u8, 97, 116, 117, 114, 100, 97, 121],
    };
    assert(v@ =~= day_name(d));
    v
}

} // verus!
