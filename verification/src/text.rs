//! The strings the store makes: record identifiers and the greeting.

use vstd::prelude::*;

verus! {

/// The character for one decimal digit.
pub open spec fn digit_char(d: nat) -> char
    recommends
        d < 10,
{
    seq!['0', '1', '2', '3', '4', '5', '6', '7', '8', '9'][d as int]
}

/// The decimal notation of `n`, without leading zeros.
pub open spec fn decimal_digits(n: nat) -> Seq<char>
    decreases n,
{
    if n < 10 {
        seq![digit_char(n)]
    } else {
        decimal_digits(n / 10).push(digit_char(n % 10))
    }
}

/// The identifier of a record: the owner's text, the record type and the
/// time of creation in decimal, joined by underscores.
pub open spec fn record_id_text(owner_text: Seq<char>, record_type: Seq<char>, now: u64) -> Seq<
    char,
> {
    owner_text + seq!['_'] + record_type + seq!['_'] + decimal_digits(now as nat)
}

/// The greeting for `name`.
pub open spec fn greeting(name: Seq<char>) -> Seq<char> {
    "Hello, "@ + name + "! Welcome to the Medical Records DApp."@
}

fn digit_str(d: u64) -> (s: &'static str)
    requires
        d < 10,
    ensures
        s@ == seq![digit_char(d as nat)],
{
    proof {
        reveal_strlit("0");
        reveal_strlit("1");
        reveal_strlit("2");
        reveal_strlit("3");
        reveal_strlit("4");
        reveal_strlit("5");
        reveal_strlit("6");
        reveal_strlit("7");
        reveal_strlit("8");
        reveal_strlit("9");
    }
    let s = if d == 0 {
        "0"
    } else if d == 1 {
        "1"
    } else if d == 2 {
        "2"
    } else if d == 3 {
        "3"
    } else if d == 4 {
        "4"
    } else if d == 5 {
        "5"
    } else if d == 6 {
        "6"
    } else if d == 7 {
        "7"
    } else if d == 8 {
        "8"
    } else {
        "9"
    };
    assert(s@ =~= seq![digit_char(d as nat)]);
    s
}

fn append_decimal(out: &mut String, n: u64)
    ensures
        final(out)@ == old(out)@ + decimal_digits(n as nat),
    decreases n,
{
    if n >= 10 {
        append_decimal(out, n / 10);
    }
    out.append(digit_str(n % 10));
    assert(out@ =~= old(out)@ + decimal_digits(n as nat));
}

/// Writes `n` in decimal.
pub fn decimal_text(n: u64) -> (text: String)
    ensures
        text@ == decimal_digits(n as nat),
{
    let mut text = String::new();
    append_decimal(&mut text, n);
    assert(text@ =~= decimal_digits(n as nat));
    text
}

/// Joins the owner's text, the record type and the time of creation into a
/// record identifier.
pub fn compose_record_id(owner_text: &str, record_type: &str, now: u64) -> (id: String)
    ensures
        id@ == record_id_text(owner_text@, record_type@, now),
{
    proof {
        reveal_strlit("_");
    }
    let mut id = String::from_str(owner_text);
    id.append("_");
    id.append(record_type);
    id.append("_");
    append_decimal(&mut id, now);
    assert("_"@ =~= seq!['_']);
    id
}

/// Greets `name`.
pub fn greet(name: String) -> (out: String)
    ensures
        out@ == greeting(name@),
{
    let mut out = String::from_str("Hello, ");
    out.append(name.as_str());
    out.append("! Welcome to the Medical Records DApp.");
    out
}

} // verus!
