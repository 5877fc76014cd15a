//! Text forms of integers, byte buffers and strings.
use vstd::prelude::*;
use vstd::string::*;

verus! {

/// The text of one decimal digit.
pub open spec fn digit_text(d: int) -> Seq<char> {
    if d == 0 {
        "0"@
    } else if d == 1 {
        "1"@
    } else if d == 2 {
        "2"@
    } else if d == 3 {
        "3"@
    } else if d == 4 {
        "4"@
    } else if d == 5 {
        "5"@
    } else if d == 6 {
        "6"@
    } else if d == 7 {
        "7"@
    } else if d == 8 {
        "8"@
    } else {
        "9"@
    }
}

/// The decimal text of a natural number, without leading zeros.
pub open spec fn natural_text(n: nat) -> Seq<char>
    decreases n,
{
    if n < 10 {
        digit_text(n as int)
    } else {
        natural_text(n / 10) + digit_text((n % 10) as int)
    }
}

/// The decimal text of an integer, with a leading `-` below zero.
pub open spec fn integer_text(i: int) -> Seq<char> {
    if i < 0 {
        "-"@ + natural_text((-i) as nat)
    } else {
        natural_text(i as nat)
    }
}

/// The text of a boolean.
pub open spec fn bool_text(b: bool) -> Seq<char> {
    if b {
        "true"@
    } else {
        "false"@
    }
}

/// The first `n` bytes of `bytes` in decimal, separated by `", "`.
pub open spec fn byte_items_text(bytes: Seq<u8>, n: nat) -> Seq<char>
    decreases n,
{
    if n == 0 || n > bytes.len() {
        Seq::empty()
    } else if n == 1 {
        natural_text(bytes[0] as nat)
    } else {
        byte_items_text(bytes, (n - 1) as nat) + ", "@ + natural_text(bytes[n - 1] as nat)
    }
}

/// The text of a byte buffer: its bytes in decimal between square brackets.
pub open spec fn bytes_text(bytes: Seq<u8>) -> Seq<char> {
    "["@ + byte_items_text(bytes, bytes.len()) + "]"@
}

/// What `Debug` of std writes for a string: the string between double
/// quotes, with the characters that need it escaped.
pub uninterp spec fn str_debug(s: Seq<char>) -> Seq<char>;

/// Formats `s` with `{:?}`, that is with `<str as core::fmt::Debug>::fmt`
/// of std. Nothing of this is proved: the contract takes the text to depend
/// on the characters of `s` alone, and gives it the name `str_debug(s@)`.
#[verifier::external_body]
pub(crate) fn format_str_debug(s: &str) -> (text: String)
    ensures
        text@ == str_debug(s@),
{
    format!("{:?}", s)
}

fn digit_str(d: u64) -> (s: &'static str)
    requires
        d < 10,
    ensures
        s@ == digit_text(d as int),
{
    if d == 0 {
        "0"
    } else if d == 1 {
        "1"
    } else if d == 2 {
        "2"
    } else if d == 3 {
        "3"
    } else if d == 4 {
        "4"
    } else if d == 5 {
        "5"
    } else if d == 6 {
        "6"
    } else if d == 7 {
        "7"
    } else if d == 8 {
        "8"
    } else {
        "9"
    }
}

/// Writes a natural number in decimal.
pub fn natural_to_string(n: u64) -> (s: String)
    ensures
        s@ == natural_text(n as nat),
    decreases n,
{
    if n < 10 {
        String::from_str(digit_str(n))
    } else {
        let mut s = natural_to_string(n / 10);
        s.append(digit_str(n % 10));
        s
    }
}

/// Writes an integer in decimal.
pub fn integer_to_string(i: i64) -> (s: String)
    ensures
        s@ == integer_text(i as int),
{
    if i < 0 {
        let magnitude: u64 = if i == i64::MIN {
            9223372036854775808u64
        } else {
            (-i) as u64
        };
        let mut s = String::from_str("-");
        let digits = natural_to_string(magnitude);
        s.append(digits.as_str());
        s
    } else {
        natural_to_string(i as u64)
    }
}

/// Writes a boolean as `true` or `false`.
pub fn bool_to_string(b: bool) -> (s: String)
    ensures
        s@ == bool_text(b),
{
    if b {
        String::from_str("true")
    } else {
        String::from_str("false")
    }
}

/// Writes a byte buffer as a bracketed list of decimal numbers.
pub fn bytes_to_string(bytes: &Vec<u8>) -> (s: String)
    ensures
        s@ == bytes_text(bytes@),
{
    let mut s = String::from_str("[");
    let mut i: usize = 0;
    while i < bytes.len()
        invariant
            i <= bytes.len(),
            s@ == "["@ + byte_items_text(bytes@, i as nat),
        decreases bytes.len() - i,
    {
        if i > 0 {
            s.append(", ");
        }
        let digits = natural_to_string(bytes[i] as u64);
        s.append(digits.as_str());
        i = i + 1;
        assert(s@ == "["@ + byte_items_text(bytes@, i as nat)) by {
            if i == 1 {
                assert(byte_items_text(bytes@, 0) =~= Seq::<char>::empty());
                assert(("["@ + Seq::<char>::empty()) + natural_text(bytes@[0] as nat) =~= "["@
                    + natural_text(bytes@[0] as nat));
            } else {
                let prev = byte_items_text(bytes@, (i - 1) as nat);
                let item = natural_text(bytes@[i - 1] as nat);
                assert((("["@ + prev) + ", "@) + item =~= "["@ + (prev + ", "@ + item));
            }
        }
    }
    s.append("]");
    s
}

} // verus!
