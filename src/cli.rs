use vstd::prelude::*;
use vstd::string::StringExecFns;

verus! {

/// The command line: the file to open and, optionally, the number of bytes in
/// a group of the hex pane.
pub struct Args {
    pub file: String,
    pub blocksize: Option<u16>,
}

/// The value of a string of decimal digits.
pub open spec fn digits_value(s: Seq<char>) -> nat
    decreases s.len(),
{
    if s.len() == 0 {
        0
    } else {
        digits_value(s.drop_last()) * 10 + (s.last() as nat - 48) as nat
    }
}

/// One or more ASCII digits.
pub open spec fn is_digits(d: Seq<char>) -> bool {
    d.len() > 0 && forall|i: int| 0 <= i < d.len() ==> '0' <= #[trigger] d[i] <= '9'
}

/// `s` without one leading `+`.
pub open spec fn without_plus(s: Seq<char>) -> Seq<char> {
    if s.len() > 0 && s[0] == '+' {
        s.drop_first()
    } else {
        s
    }
}

/// The `u16` that `s` writes in decimal: an optional `+`, then one or more
/// ASCII digits whose value fits in 16 bits; `None` for anything else.
pub open spec fn parsed_u16(s: Seq<char>) -> Option<u16> {
    let d = without_plus(s);
    if is_digits(d) && digits_value(d) <= u16::MAX {
        Some(digits_value(d) as u16)
    } else {
        None
    }
}

/// Relies on `str::parse::<u16>`: it accepts an optional `+` followed by one or
/// more ASCII digits whose value fits in a `u16`, and fails on anything else.
#[verifier::external_body]
fn parse_u16(s: &str) -> (r: Option<u16>)
    ensures
        r == parsed_u16(s@),
{
    s.parse::<u16>().ok()
}

/// Checks a blocksize given on the command line: a decimal `u16` other than
/// zero.
pub fn blocksize_in_range(s: &str) -> (r: Result<u16, String>)
    ensures
        parsed_u16(s@) is None ==> r is Err && r->Err_0@ == "'"@ + s@
            + "' is not a valid value for blocksize"@,
        parsed_u16(s@) == Some(0u16) ==> r is Err && r->Err_0@
            == "blocksize should not be 0 but strictly positive"@,
        forall|b: u16| b != 0 && parsed_u16(s@) == Some(b) ==> r == Ok::<u16, String>(b),
{
    match parse_u16(s) {
        None => {
            let msg = String::from_str("'").concat(s).concat("' is not a valid value for blocksize");
            Err(msg)
        },
        Some(b) => {
            if b == 0 {
                Err(String::from_str("blocksize should not be 0 but strictly positive"))
            } else {
                Ok(b)
            }
        },
    }
}

} // verus!
