//! Verified construction of the descriptive names the simulation hands out:
//! decimal rendering of counters, joining of name parts, and two thin
//! wrappers over `str` transformations that vstd gives no specification.

use vstd::prelude::*;

verus! {

use vstd::string::StringExecFns;

/// The character for one decimal digit.
pub open spec fn digit_char(d: int) -> char
    recommends 0 <= d < 10,
{
    if d == 0 { '0' }
    else if d == 1 { '1' }
    else if d == 2 { '2' }
    else if d == 3 { '3' }
    else if d == 4 { '4' }
    else if d == 5 { '5' }
    else if d == 6 { '6' }
    else if d == 7 { '7' }
    else if d == 8 { '8' }
    else { '9' }
}

/// The decimal rendering of a non-negative integer, most significant digit
/// first.
pub open spec fn dec_seq(n: int) -> Seq<char>
    recommends n >= 0,
    decreases n,
{
    if n < 10 {
        seq![digit_char(n)]
    } else {
        dec_seq(n / 10).push(digit_char(n % 10))
    }
}

/// Append one decimal digit to a string.
fn push_digit(s: &mut String, d: u64)
    requires
        d < 10,
    ensures
        final(s)@ == old(s)@ + seq![digit_char(d as int)],
{
    let c: &str = match d {
        0 => "0",
        1 => "1",
        2 => "2",
        3 => "3",
        4 => "4",
        5 => "5",
        6 => "6",
        7 => "7",
        8 => "8",
        _ => "9",
    };
    proof {
        reveal_strlit("0");
        reveal_strlit("1");
        reveal_strlit("2");
        reveal_strlit("3");
        reveal_strlit("4");
        reveal_strlit("5");
        reveal_strlit("6");
        reveal_strlit("7");
        reveal_strlit("8");
        reveal_strlit("9");
        assert(c@ =~= seq![digit_char(d as int)]);
    }
    s.append(c);
}

/// Append the decimal rendering of `n` to a string.
pub fn push_decimal(s: &mut String, n: u64)
    ensures
        final(s)@ == old(s)@ + dec_seq(n as int),
    decreases n,
{
    if n >= 10 {
        push_decimal(s, n / 10);
        push_digit(s, n % 10);
        proof {
            assert(final(s)@ =~= old(s)@ + dec_seq(n as int));
        }
    } else {
        push_digit(s, n);
    }
}

/// A copy of a borrowed string.
pub fn copied(s: &str) -> (r: String)
    ensures
        r@ == s@,
{
    String::from_str(s)
}

/// `base`, `suffix`, and the decimal rendering of `n`, in that order.
pub fn joined_counted(base: &str, suffix: &str, n: u64) -> (r: String)
    ensures
        r@ == base@ + suffix@ + dec_seq(n as int),
{
    let mut s = String::from_str(base);
    s.append(suffix);
    push_decimal(&mut s, n);
    s
}

/// What `str::to_lowercase` returns; the result depends on the characters
/// alone.
pub uninterp spec fn lower_of(s: Seq<char>) -> Seq<char>;

/// Relies on `str::to_lowercase`: a lowercase version of the string,
/// depending on its characters alone.
#[verifier::external_body]
pub fn lowercase(s: &str) -> (r: String)
    ensures
        r@ == lower_of(s@),
{
    s.to_lowercase()
}

/// Relies on `str::replace`: each space becomes an underscore and every
/// other character stays itself.
#[verifier::external_body]
pub fn underscored(s: &str) -> (r: String)
    ensures
        r@ == s@.map_values(|c: char| if c == ' ' { '_' } else { c }),
{
    s.replace(' ', "_")
}

} // verus!
