use vstd::prelude::*;
use vstd::string::StringExecFns;

verus! {

/// The character of a decimal digit.
pub open spec fn digit_char(d: nat) -> char {
    if d == 0 {
        '0'
    } else if d == 1 {
        '1'
    } else if d == 2 {
        '2'
    } else if d == 3 {
        '3'
    } else if d == 4 {
        '4'
    } else if d == 5 {
        '5'
    } else if d == 6 {
        '6'
    } else if d == 7 {
        '7'
    } else if d == 8 {
        '8'
    } else {
        '9'
    }
}

/// The decimal digits of a natural number, most significant first.
pub open spec fn decimal(n: nat) -> Seq<char>
    decreases n,
{
    if n < 10 {
        seq![digit_char(n)]
    } else {
        decimal(n / 10).push(digit_char(n % 10))
    }
}

/// The decimal text of an integer, with a leading `-` when it is negative.
pub open spec fn signed_decimal(v: int) -> Seq<char> {
    if v < 0 {
        seq!['-'] + decimal((-v) as nat)
    } else {
        decimal(v as nat)
    }
}

/// The text of a runtime error located at `line`, `col`. A message that starts with the marker
/// `^` was located already: the marker is removed and nothing is added.
pub open spec fn located_message(msg: Seq<char>, line: nat, col: nat) -> Seq<char> {
    if msg.len() > 0 && msg[0] == '^' {
        msg.drop_first()
    } else {
        "Execution error. "@ + msg + ". Line "@ + decimal(line) + ", column "@ + decimal(col)
            + "."@
    }
}

fn digit_str(d: u64) -> (r: &'static str)
    requires
        d < 10,
    ensures
        r@ == seq![digit_char(d as nat)],
{
    if d == 0 {
        proof { reveal_strlit("0"); }
        "0"
    } else if d == 1 {
        proof { reveal_strlit("1"); }
        "1"
    } else if d == 2 {
        proof { reveal_strlit("2"); }
        "2"
    } else if d == 3 {
        proof { reveal_strlit("3"); }
        "3"
    } else if d == 4 {
        proof { reveal_strlit("4"); }
        "4"
    } else if d == 5 {
        proof { reveal_strlit("5"); }
        "5"
    } else if d == 6 {
        proof { reveal_strlit("6"); }
        "6"
    } else if d == 7 {
        proof { reveal_strlit("7"); }
        "7"
    } else if d == 8 {
        proof { reveal_strlit("8"); }
        "8"
    } else {
        proof { reveal_strlit("9"); }
        "9"
    }
}

/// Writes `n` in decimal.
pub fn render_u64(n: u64) -> (r: String)
    ensures
        r@ == decimal(n as nat),
    decreases n,
{
    if n < 10 {
        String::from_str(digit_str(n))
    } else {
        let head = render_u64(n / 10);
        head.concat(digit_str(n % 10))
    }
}

/// Writes `v` in decimal, with a leading `-` when it is negative.
pub fn render_i64(v: i64) -> (r: String)
    ensures
        r@ == signed_decimal(v as int),
{
    if v < 0 {
        let magnitude = (0 - (v as i128)) as u64;
        proof { reveal_strlit("-"); }
        let sign = String::from_str("-");
        let digits = render_u64(magnitude);
        sign.concat(digits.as_str())
    } else {
        render_u64(v as u64)
    }
}

/// Formats a runtime error message with its source position:
/// `Execution error. {msg}. Line {line}, column {col}.` A message that starts with `^` was
/// formatted before; it comes back without the marker and is not wrapped a second time.
pub fn create_msg_err(msg: String, line: usize, col: usize) -> (r: String)
    ensures
        r@ == located_message(msg@, line as nat, col as nat),
{
    let n = msg.as_str().unicode_len();
    if n > 0 && msg.as_str().get_char(0) == '^' {
        let rest = msg.as_str().substring_char(1, n);
        String::from_str(rest)
    } else {
        let mut r = String::from_str("Execution error. ");
        r.append(msg.as_str());
        r.append(". Line ");
        let l = render_u64(line as u64);
        r.append(l.as_str());
        r.append(", column ");
        let c = render_u64(col as u64);
        r.append(c.as_str());
        r.append(".");
        r
    }
}

} // verus!
