//! Small string utilities: resource-name sanitization, controller-name
//! formatting, and decimal rendering of integers.

use vstd::prelude::*;
use vstd::string::StrSliceExecFns;
use vstd::string::StringExecFns;

verus! {

/// The sanitized form of a name: every `.` becomes a `-`, character by
/// character.
pub open spec fn repaired(s: Seq<char>) -> Seq<char> {
    Seq::new(s.len(), |i: int| if s[i] == '.' { '-' } else { s[i] })
}

/// Sanitizing is idempotent: a second pass changes nothing, because the
/// replacement character is never replaced again.
pub proof fn lemma_repaired_idempotent(s: Seq<char>)
    ensures
        repaired(repaired(s)) == repaired(s),
{
    assert(repaired(repaired(s)) =~= repaired(s));
}

/// Replace characters that are invalid in object names; `.` becomes `-`.
pub fn repair_resource_name(resource_name: &String) -> (r: String)
    ensures
        r@ == repaired(resource_name@),
{
    let s = resource_name.as_str();
    let n = s.unicode_len();
    let mut out = String::new();
    let mut i: usize = 0;
    while i < n
        invariant
            i <= n,
            n == s@.len(),
            s@ == resource_name@,
            out@ == repaired(s@).subrange(0, i as int),
        decreases n - i,
    {
        let c = s.get_char(i);
        if c == '.' {
            proof {
                reveal_strlit("-");
            }
            out.append("-");
        } else {
            let piece = s.substring_char(i, i + 1);
            out.append(piece);
        }
        proof {
            assert(out@ =~= repaired(s@).subrange(0, i + 1 as int));
        }
        i = i + 1;
    }
    proof {
        assert(repaired(s@).subrange(0, n as int) =~= repaired(s@));
    }
    out
}

/// Formats a full controller name, which joins the operator name and the
/// controller name with a dash.
pub fn format_full_controller_name(operator: &str, controller: &str) -> (r: String)
    ensures
        r@ == operator@ + "-"@ + controller@,
{
    let mut out = operator.to_owned();
    out.append("-");
    out.append(controller);
    out
}

/// The decimal digit character for a value below ten.
pub open spec fn dec_digit(d: nat) -> char {
    ((48 + d) as u8) as char
}

/// The decimal digit sequence of a number, most significant digit first.
pub open spec fn dec_digits(n: nat) -> Seq<char>
    decreases n,
{
    if n < 10 {
        seq![dec_digit(n)]
    } else {
        dec_digits(n / 10).push(dec_digit(n % 10))
    }
}

fn digit_str(d: u64) -> (r: &'static str)
    requires
        d < 10,
    ensures
        r@ == seq![dec_digit(d as nat)],
{
    proof {
        reveal_strlit("0");
        reveal_strlit("1");
        reveal_strlit("2");
        reveal_strlit("3");
        reveal_strlit("4");
        reveal_strlit("5");
        reveal_strlit("6");
        reveal_strlit("7");
        reveal_strlit("8");
        reveal_strlit("9");
    }
    if d == 0 {
        "0"
    } else if d == 1 {
        "1"
    } else if d == 2 {
        "2"
    } else if d == 3 {
        "3"
    } else if d == 4 {
        "4"
    } else if d == 5 {
        "5"
    } else if d == 6 {
        "6"
    } else if d == 7 {
        "7"
    } else if d == 8 {
        "8"
    } else {
        "9"
    }
}

/// Render a number in decimal.
pub fn u64_to_string(n: u64) -> (r: String)
    ensures
        r@ == dec_digits(n as nat),
    decreases n,
{
    if n < 10 {
        String::from_str(digit_str(n))
    } else {
        let mut s = u64_to_string(n / 10);
        s.append(digit_str(n % 10));
        proof {
            assert(s@ =~= dec_digits(n as nat));
        }
        s
    }
}

/// Render a non-negative machine integer in decimal.
pub fn i32_to_string(n: i32) -> (r: String)
    requires
        n >= 0,
    ensures
        r@ == dec_digits(n as nat),
{
    u64_to_string(n as u64)
}

/// Render a port number in decimal.
pub fn u16_to_string(n: u16) -> (r: String)
    ensures
        r@ == dec_digits(n as nat),
{
    u64_to_string(n as u64)
}

} // verus!
