//! Text: comparison, building, numbers in decimal, and dates.
use vstd::prelude::*;
use vstd::string::StringExecFns;

verus! {

/// A string with the text of a string slice.
pub fn str_to_string(s: &str) -> (r: String)
    ensures
        r@ == s@,
{
    s.to_owned()
}

/// The three texts one after the other.
pub fn concat3(a: &String, b: &str, c: &str) -> (r: String)
    ensures
        r@ == a@ + b@ + c@,
{
    let mut r = a.clone();
    r.append(b);
    r.append(c);
    r
}

/// The decimal digit for a number below ten.
pub open spec fn digit(n: nat) -> char {
    if n == 0 { '0' }
    else if n == 1 { '1' }
    else if n == 2 { '2' }
    else if n == 3 { '3' }
    else if n == 4 { '4' }
    else if n == 5 { '5' }
    else if n == 6 { '6' }
    else if n == 7 { '7' }
    else if n == 8 { '8' }
    else { '9' }
}

/// A number in decimal, without leading zeros.
pub open spec fn decimal(n: nat) -> Seq<char>
    decreases n,
{
    if n < 10 {
        seq![digit(n)]
    } else {
        decimal(n / 10).push(digit(n % 10))
    }
}

/// A whole number in decimal, with a minus sign where it is negative.
pub open spec fn signed_decimal(n: int) -> Seq<char> {
    if n < 0 {
        seq!['-'] + decimal((-n) as nat)
    } else {
        decimal(n as nat)
    }
}

/// A number of hundredths in decimal, with two digits behind the point.
pub open spec fn hundredths(n: nat) -> Seq<char> {
    decimal(n / 100) + seq!['.', digit((n % 100) / 10), digit(n % 10)]
}

fn digit_str(n: u8) -> (r: &'static str)
    requires
        n < 10,
    ensures
        r@ == seq![digit(n as nat)],
{
    proof {
        reveal_strlit("0");
        reveal_strlit("1");
        reveal_strlit("2");
        reveal_strlit("3");
        reveal_strlit("4");
        reveal_strlit("5");
        reveal_strlit("6");
        reveal_strlit("7");
        reveal_strlit("8");
        reveal_strlit("9");
    }
    let r = match n {
        0 => "0",
        1 => "1",
        2 => "2",
        3 => "3",
        4 => "4",
        5 => "5",
        6 => "6",
        7 => "7",
        8 => "8",
        _ => "9",
    };
    assert(r@ =~= seq![digit(n as nat)]);
    r
}

/// Writes a number in decimal.
pub fn write_decimal(n: u128) -> (r: String)
    ensures
        r@ == decimal(n as nat),
    decreases n,
{
    if n < 10 {
        str_to_string(digit_str(n as u8))
    } else {
        let mut r = write_decimal(n / 10);
        let d = digit_str((n % 10) as u8);
        r.append(d);
        assert(r@ =~= decimal(n as nat));
        r
    }
}

/// Writes a whole number in decimal, with a minus sign where it is negative.
pub fn write_signed_decimal(n: i64) -> (r: String)
    ensures
        r@ == signed_decimal(n as int),
{
    if n < 0 {
        let m: u128 = (-(n as i128)) as u128;
        let mut r = str_to_string("-");
        let d = write_decimal(m);
        r.append(d.as_str());
        proof {
            reveal_strlit("-");
            assert(r@ =~= signed_decimal(n as int));
        }
        r
    } else {
        write_decimal(n as u128)
    }
}

/// Writes a number of hundredths with two digits behind the point.
pub fn write_hundredths(n: u128) -> (r: String)
    ensures
        r@ == hundredths(n as nat),
{
    let mut r = write_decimal(n / 100);
    r.append(".");
    r.append(digit_str(((n % 100) / 10) as u8));
    r.append(digit_str((n % 10) as u8));
    proof {
        reveal_strlit(".");
        assert(r@ =~= hundredths(n as nat));
    }
    r
}

} // verus!
