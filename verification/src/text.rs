//! Decimal rendering of numbers shown to the player.
use vstd::prelude::*;


verus! {

broadcast use vstd::string::group_string_axioms;

/// The character of a decimal digit `d` (0 through 9).
pub open spec fn digit_char(d: nat) -> char {
    (48 + d) as char
}

/// The decimal digits of `n`, most significant first, without leading zeros.
pub open spec fn decimal_text(n: nat) -> Seq<char>
    decreases n,
{
    if n < 10 {
        seq![digit_char(n)]
    } else {
        decimal_text(n / 10).push(digit_char(n % 10))
    }
}

/// The label an item without a definition is shown under: `Item #` and its id.
pub open spec fn unknown_item_label(item_id: u32) -> Seq<char> {
    seq!['I', 't', 'e', 'm', ' ', '#'] + decimal_text(item_id as nat)
}

/// The one-character text of the decimal digit `d`.
fn digit_str(d: u32) -> (r: &'static str)
    requires
        d < 10,
    ensures
        r@ == seq![digit_char(d as nat)],
{
    proof {
        reveal_strlit("0");
        reveal_strlit("1");
        reveal_strlit("2");
        reveal_strlit("3");
        reveal_strlit("4");
        reveal_strlit("5");
        reveal_strlit("6");
        reveal_strlit("7");
        reveal_strlit("8");
        reveal_strlit("9");
    }
    match d {
        0 => "0",
        1 => "1",
        2 => "2",
        3 => "3",
        4 => "4",
        5 => "5",
        6 => "6",
        7 => "7",
        8 => "8",
        _ => "9",
    }
}

/// `n` written in decimal, without leading zeros.
pub fn decimal_string(n: u32) -> (s: String)
    ensures
        s@ == decimal_text(n as nat),
    decreases n,
{
    if n < 10 {
        digit_str(n).to_string()
    } else {
        let mut s = decimal_string(n / 10);
        s.append(digit_str(n % 10));
        s
    }
}

/// The label of an item that has no definition: `Item #` followed by its id in
/// decimal.
pub fn unknown_item_name(item_id: u32) -> (name: String)
    ensures
        name@ == unknown_item_label(item_id),
{
    let prefix = "Item #";
    proof {
        reveal_strlit("Item #");
    }
    let mut name = prefix.to_string();
    let digits = decimal_string(item_id);
    name.append(digits.as_str());
    assert(name@ =~= unknown_item_label(item_id));
    name
}

} // verus!
