use vstd::prelude::*;
use vstd::string::StringExecFns;

verus! {

/// The millisecond timestamp a message id encodes, or nothing for a
/// string that is not a valid id.  It depends on the characters alone.
pub uninterp spec fn ulid_ms_of(s: Seq<char>) -> Option<u64>;

/// Relies on `ulid::Ulid::from_string` and `ulid::Ulid::timestamp_ms`:
/// decoding is a pure function of the characters, and the timestamp is
/// the id's top 48 bits.
#[verifier::external_body]
fn ulid_timestamp_ms(id: &str) -> (r: Option<u64>)
    ensures
        r == ulid_ms_of(id@),
        r matches Some(ms) ==> ms < 0x1000000000000,
{
    match ulid::Ulid::from_string(id) {
        Ok(u) => Some(u.timestamp_ms()),
        Err(_) => None,
    }
}

/// The decimal digit character for a value below ten.
pub open spec fn digit_char(d: u64) -> char {
    if d == 0 {
        '0'
    } else if d == 1 {
        '1'
    } else if d == 2 {
        '2'
    } else if d == 3 {
        '3'
    } else if d == 4 {
        '4'
    } else if d == 5 {
        '5'
    } else if d == 6 {
        '6'
    } else if d == 7 {
        '7'
    } else if d == 8 {
        '8'
    } else {
        '9'
    }
}

fn digit_str(d: u64) -> (r: &'static str)
    requires
        d < 10,
    ensures
        r@ == seq![digit_char(d)],
{
    proof {
        reveal_strlit("0");
        reveal_strlit("1");
        reveal_strlit("2");
        reveal_strlit("3");
        reveal_strlit("4");
        reveal_strlit("5");
        reveal_strlit("6");
        reveal_strlit("7");
        reveal_strlit("8");
        reveal_strlit("9");
    }
    if d == 0 {
        "0"
    } else if d == 1 {
        "1"
    } else if d == 2 {
        "2"
    } else if d == 3 {
        "3"
    } else if d == 4 {
        "4"
    } else if d == 5 {
        "5"
    } else if d == 6 {
        "6"
    } else if d == 7 {
        "7"
    } else if d == 8 {
        "8"
    } else {
        "9"
    }
}

/// A value below one hundred, written with two digits.
pub open spec fn two_digits(n: u64) -> Seq<char> {
    seq![digit_char((n / 10) as u64), digit_char((n % 10) as u64)]
}

/// The wall-clock label of a millisecond timestamp: its hour and minute
/// within the day, as `[HH:MM]`.
pub open spec fn clock_label_spec(ms: u64) -> Seq<char> {
    "["@ + two_digits(((ms / 3600000) % 24) as u64) + ":"@ + two_digits(
        ((ms / 60000) % 60) as u64,
    ) + "]"@
}

pub fn clock_label(ms: u64) -> (r: String)
    ensures
        r@ == clock_label_spec(ms),
{
    let hours = (ms / 3600000) % 24;
    let minutes = (ms / 60000) % 60;
    let mut r = "[".to_owned();
    r.append(digit_str(hours / 10));
    r.append(digit_str(hours % 10));
    r.append(":");
    r.append(digit_str(minutes / 10));
    r.append(digit_str(minutes % 10));
    r.append("]");
    proof {
        assert(r@ =~= clock_label_spec(ms));
    }
    r
}

/// The time label a message line shows, from the timestamp its id
/// encodes; a malformed id yields nothing rather than a made-up time.
pub fn message_timestamp_label(id: &str) -> (r: Option<String>)
    ensures
        (r is Some) == (ulid_ms_of(id@) is Some),
        r matches Some(label) ==> label@ == clock_label_spec(ulid_ms_of(id@)->0),
{
    match ulid_timestamp_ms(id) {
        Some(ms) => Some(clock_label(ms)),
        None => None,
    }
}

} // verus!
