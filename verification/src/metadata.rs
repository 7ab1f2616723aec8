//! What is written down about a unit when it is handed out.

use vstd::prelude::*;
use vstd::string::StringExecFns;

verus! {

/// The character of a decimal digit.
pub open spec fn digit(d: nat) -> char {
    if d == 0 {
        '0'
    } else if d == 1 {
        '1'
    } else if d == 2 {
        '2'
    } else if d == 3 {
        '3'
    } else if d == 4 {
        '4'
    } else if d == 5 {
        '5'
    } else if d == 6 {
        '6'
    } else if d == 7 {
        '7'
    } else if d == 8 {
        '8'
    } else {
        '9'
    }
}

/// A number in decimal digits, without leading zeros.
pub open spec fn decimal(n: nat) -> Seq<char>
    decreases n,
{
    if n < 10 {
        seq![digit(n)]
    } else {
        decimal(n / 10).push(digit(n % 10))
    }
}

fn digit_str(d: u64) -> (s: &'static str)
    requires
        d < 10,
    ensures
        s@ == seq![digit(d as nat)],
{
    proof {
        reveal_strlit("0");
        reveal_strlit("1");
        reveal_strlit("2");
        reveal_strlit("3");
        reveal_strlit("4");
        reveal_strlit("5");
        reveal_strlit("6");
        reveal_strlit("7");
        reveal_strlit("8");
        reveal_strlit("9");
    }
    let s = if d == 0 {
        "0"
    } else if d == 1 {
        "1"
    } else if d == 2 {
        "2"
    } else if d == 3 {
        "3"
    } else if d == 4 {
        "4"
    } else if d == 5 {
        "5"
    } else if d == 6 {
        "6"
    } else if d == 7 {
        "7"
    } else if d == 8 {
        "8"
    } else {
        "9"
    };
    assert(s@ =~= seq![digit(d as nat)]);
    s
}

/// A number in decimal digits.
pub fn to_decimal(n: u64) -> (s: String)
    ensures
        s@ == decimal(n as nat),
    decreases n,
{
    if n < 10 {
        String::from_str(digit_str(n))
    } else {
        let mut s = to_decimal(n / 10);
        let ghost before = s@;
        s.append(digit_str(n % 10));
        assert(s@ =~= before.push(digit((n % 10) as nat)));
        s
    }
}

/// What is written down about one unit.
#[derive(Debug)]
pub struct TokenMetadata {
    /// The name of the unit: its identifier.
    pub title: String,
    /// Where the picture of the unit is found.
    pub media: String,
    /// Where more about the unit is found.
    pub reference: String,
    /// When the unit was handed out.
    pub issued_at: String,
}

/// What is written down about the unit of the given identifier, handed out
/// at the given time: its identifier as its name, the names of its picture
/// and of its description, which begin with the identifier, and the time.
pub fn create_metadata(token_id: u64, block_timestamp: u64) -> (metadata: TokenMetadata)
    ensures
        metadata.title@ == decimal(token_id as nat),
        metadata.media@ == decimal(token_id as nat) + ".png"@,
        metadata.reference@ == decimal(token_id as nat) + ".json"@,
        metadata.issued_at@ == decimal(block_timestamp as nat),
{
    let title = to_decimal(token_id);
    let media = to_decimal(token_id).concat(".png");
    let reference = to_decimal(token_id).concat(".json");
    TokenMetadata { title, media, reference, issued_at: to_decimal(block_timestamp) }
}

} // verus!
