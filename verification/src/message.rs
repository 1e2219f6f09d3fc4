//! The count-message payload and the text helpers behind it.
//!
//! A count message is the one unsolicited payload the server ever sends:
//! `{"name":"count","data":N}` where `N` is the current registry size in
//! base 10, non-negative, with no leading zero.

use vstd::prelude::*;

verus! {

/// The decimal digit character for `d` (meaningful for `d < 10`).
pub open spec fn digit_char(d: nat) -> char {
    if d == 0 {
        '0'
    } else if d == 1 {
        '1'
    } else if d == 2 {
        '2'
    } else if d == 3 {
        '3'
    } else if d == 4 {
        '4'
    } else if d == 5 {
        '5'
    } else if d == 6 {
        '6'
    } else if d == 7 {
        '7'
    } else if d == 8 {
        '8'
    } else {
        '9'
    }
}

/// Base-10 digits of `n`, most significant first, no leading zero.
pub open spec fn dec_digits(n: nat) -> Seq<char>
    decreases n,
{
    if n < 10 {
        seq![digit_char(n)]
    } else {
        dec_digits(n / 10).push(digit_char(n % 10))
    }
}

/// The wire payload announcing a connection count of `n`.
pub open spec fn count_message_view(n: nat) -> Seq<char> {
    "{\"name\":\"count\",\"data\":"@ + dec_digits(n) + "}"@
}

/// Whether `s` holds the same characters as `lit`.
pub fn str_is(s: &String, lit: &str) -> (r: bool)
    ensures
        r == (s@ == lit@),
{
    let other = String::from_str(lit);
    *s == other
}

fn digit_str(d: u64) -> (s: &'static str)
    requires
        d < 10,
    ensures
        s@ == seq![digit_char(d as nat)],
{
    proof {
        reveal_strlit("0");
        reveal_strlit("1");
        reveal_strlit("2");
        reveal_strlit("3");
        reveal_strlit("4");
        reveal_strlit("5");
        reveal_strlit("6");
        reveal_strlit("7");
        reveal_strlit("8");
        reveal_strlit("9");
    }
    if d == 0 {
        proof { assert("0"@ =~= seq![digit_char(d as nat)]); }
        "0"
    } else if d == 1 {
        proof { assert("1"@ =~= seq![digit_char(d as nat)]); }
        "1"
    } else if d == 2 {
        proof { assert("2"@ =~= seq![digit_char(d as nat)]); }
        "2"
    } else if d == 3 {
        proof { assert("3"@ =~= seq![digit_char(d as nat)]); }
        "3"
    } else if d == 4 {
        proof { assert("4"@ =~= seq![digit_char(d as nat)]); }
        "4"
    } else if d == 5 {
        proof { assert("5"@ =~= seq![digit_char(d as nat)]); }
        "5"
    } else if d == 6 {
        proof { assert("6"@ =~= seq![digit_char(d as nat)]); }
        "6"
    } else if d == 7 {
        proof { assert("7"@ =~= seq![digit_char(d as nat)]); }
        "7"
    } else if d == 8 {
        proof { assert("8"@ =~= seq![digit_char(d as nat)]); }
        "8"
    } else {
        proof { assert("9"@ =~= seq![digit_char(d as nat)]); }
        "9"
    }
}

/// Renders `n` in base 10, most significant digit first, no leading zero.
pub fn u64_to_decimal(n: u64) -> (s: String)
    ensures
        s@ == dec_digits(n as nat),
    decreases n,
{
    if n < 10 {
        String::from_str(digit_str(n))
    } else {
        let mut s = u64_to_decimal(n / 10);
        let tail = digit_str(n % 10);
        s.append(tail);
        proof {
            assert(s@ =~= dec_digits((n / 10) as nat).push(digit_char((n % 10) as nat)));
        }
        s
    }
}

/// Renders the count message announcing a connection count of `n`.
pub fn format_count(n: u64) -> (s: String)
    ensures
        s@ == count_message_view(n as nat),
{
    let mut s = String::from_str("{\"name\":\"count\",\"data\":");
    let digits = u64_to_decimal(n);
    s.append(digits.as_str());
    s.append("}");
    proof {
        assert(s@ =~= count_message_view(n as nat));
    }
    s
}

} // verus!
