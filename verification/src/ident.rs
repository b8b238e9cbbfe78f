use vstd::prelude::*;

verus! {

/// The decimal digit character for `d`.
pub open spec fn digit_char(d: int) -> char {
    if d == 0 {
        '0'
    } else if d == 1 {
        '1'
    } else if d == 2 {
        '2'
    } else if d == 3 {
        '3'
    } else if d == 4 {
        '4'
    } else if d == 5 {
        '5'
    } else if d == 6 {
        '6'
    } else if d == 7 {
        '7'
    } else if d == 8 {
        '8'
    } else {
        '9'
    }
}

/// The decimal digits of `n`, most significant first, with no leading zeros
/// (a single `'0'` for zero).
pub open spec fn dec_digits(n: nat) -> Seq<char>
    decreases n,
{
    if n < 10 {
        seq![digit_char(n as int)]
    } else {
        dec_digits(n / 10) + seq![digit_char((n % 10) as int)]
    }
}

/// The decimal rendering of a possibly negative integer: a leading `'-'`
/// before the digits of its magnitude.
pub open spec fn int_digits(n: int) -> Seq<char> {
    if n < 0 {
        seq!['-'] + dec_digits((-n) as nat)
    } else {
        dec_digits(n as nat)
    }
}

/// A single-character string slice for the decimal digit `d`.
fn digit_str(d: u64) -> (r: &'static str)
    requires
        d < 10,
    ensures
        r@ =~= seq![digit_char(d as int)],
{
    proof {
        reveal_strlit("0");
        reveal_strlit("1");
        reveal_strlit("2");
        reveal_strlit("3");
        reveal_strlit("4");
        reveal_strlit("5");
        reveal_strlit("6");
        reveal_strlit("7");
        reveal_strlit("8");
        reveal_strlit("9");
    }
    if d == 0 {
        "0"
    } else if d == 1 {
        "1"
    } else if d == 2 {
        "2"
    } else if d == 3 {
        "3"
    } else if d == 4 {
        "4"
    } else if d == 5 {
        "5"
    } else if d == 6 {
        "6"
    } else if d == 7 {
        "7"
    } else if d == 8 {
        "8"
    } else {
        "9"
    }
}

/// Render `n` in decimal.
pub fn u64_to_string(n: u64) -> (r: String)
    ensures
        r@ == dec_digits(n as nat),
    decreases n,
{
    if n < 10 {
        let r = String::from_str(digit_str(n));
        proof {
            assert(r@ =~= dec_digits(n as nat));
        }
        r
    } else {
        let mut r = u64_to_string(n / 10);
        r.append(digit_str(n % 10));
        proof {
            assert(r@ =~= dec_digits(n as nat));
        }
        r
    }
}

/// The identifier generated for a webview created when the clock read
/// `millis`: the fixed prefix followed by the reading in decimal.
pub open spec fn webview_id_seq(millis: i64) -> Seq<char> {
    "crunchyroll_"@ + int_digits(millis as int)
}

/// Relies on `chrono::Utc::now().timestamp_millis()`: the clock's reading in
/// milliseconds.  Nothing is assumed of the value.
#[verifier::external_body]
fn now_timestamp_millis() -> i64 {
    chrono::Utc::now().timestamp_millis()
}

/// Build the identifier for a webview created when the clock read `millis`.
pub fn webview_id_for(millis: i64) -> (r: String)
    ensures
        r@ == webview_id_seq(millis),
{
    let mut r = String::from_str("crunchyroll_");
    r.append(i64_to_string(millis).as_str());
    proof {
        assert(r@ =~= webview_id_seq(millis));
    }
    r
}

/// Generate an identifier for a new webview from the current clock reading.
pub fn fresh_webview_id() -> (r: String)
    ensures
        exists|t: i64| r@ == webview_id_seq(t),
{
    let t: i64 = now_timestamp_millis();
    let r = webview_id_for(t);
    proof {
        assert(r@ == webview_id_seq(t));
    }
    r
}

/// Render `n` in decimal, with a `'-'` sign when it is negative.
pub fn i64_to_string(n: i64) -> (r: String)
    ensures
        r@ == int_digits(n as int),
{
    if n >= 0 {
        u64_to_string(n as u64)
    } else {
        let mag: u64 = ((-(n + 1)) as u64) + 1;
        assert(mag == -(n as int));
        let mut r = String::from_str("-");
        proof {
            reveal_strlit("-");
        }
        r.append(u64_to_string(mag).as_str());
        proof {
            assert(r@ =~= int_digits(n as int));
        }
        r
    }
}

} // verus!
