//! Parts of URLs.
use vstd::prelude::*;
use vstd::utf8::encode_utf8;

verus! {

/// The bytes that stand for themselves in a URL.
pub open spec fn is_unreserved(b: u8) -> bool {
    ||| 0x30 <= b <= 0x39
    ||| 0x41 <= b <= 0x5a
    ||| 0x61 <= b <= 0x7a
    ||| b == 0x2d || b == 0x2e || b == 0x5f || b == 0x7e
}

/// A hexadecimal digit, the letters in upper case.
pub open spec fn hex_digit(d: int) -> char {
    if d < 10 {
        (('0' as int) + d) as char
    } else {
        (('A' as int) + d - 10) as char
    }
}

/// How a byte is written in a URL.
pub open spec fn encoded_byte(b: u8) -> Seq<char> {
    if is_unreserved(b) {
        seq![b as char]
    } else {
        seq!['%', hex_digit(b as int / 16), hex_digit(b as int % 16)]
    }
}

/// How bytes are written in a URL.
pub open spec fn percent_encoded(bytes: Seq<u8>) -> Seq<char>
    decreases bytes.len(),
{
    if bytes.len() == 0 {
        seq![]
    } else {
        percent_encoded(bytes.drop_last()) + encoded_byte(bytes.last())
    }
}

/// `urlencoding::encode`: each byte of the UTF-8 form of the text that is no letter, no
/// digit and none of `-`, `_`, `.` and `~` becomes `%` and its two hexadecimal digits; the
/// others stay.
#[verifier::external_body]
pub(crate) fn percent_encode(s: &str) -> (r: String)
    ensures
        r@ == percent_encoded(encode_utf8(s@)),
{
    urlencoding::encode(s).into_owned()
}

/// The value of a hexadecimal digit in upper case.
pub open spec fn digit_value(c: char) -> int {
    if '0' <= c <= '9' {
        c as int - '0' as int
    } else {
        c as int - 'A' as int + 10
    }
}

/// How a byte is written tells which byte it is: letters, digits and a few marks stand for
/// themselves, any other is a percent sign and the two digits of its value.
pub proof fn law_a_byte_can_be_read_back(b: u8)
    ensures
        ({
            let w = encoded_byte(b);
            ||| w.len() == 1 && w[0] as u32 == b as u32 && w[0] != '%'
            ||| w.len() == 3 && w[0] == '%' && digit_value(w[1]) * 16 + digit_value(w[2]) == b
        }),
        encoded_byte(b).len() == 1 ==> b != 0x20 && b != 0x26 && b != 0x3f && b != 0x25 && b != 0x23
            && b < 0x80,
        0x61 <= b <= 0x7a || 0x41 <= b <= 0x5a || 0x30 <= b <= 0x39 ==> encoded_byte(b).len() == 1,
{
}

/// Bytes are written one by one.
pub proof fn law_bytes_are_written_one_by_one(a: Seq<u8>, b: Seq<u8>)
    ensures
        percent_encoded(a + b) == percent_encoded(a) + percent_encoded(b),
    decreases b.len(),
{
    if b.len() == 0 {
        assert(a + b =~= a);
        assert(percent_encoded(a) + percent_encoded(b) =~= percent_encoded(a));
    } else {
        law_bytes_are_written_one_by_one(a, b.drop_last());
        assert((a + b).drop_last() =~= a + b.drop_last());
        assert(percent_encoded(a + b) =~= percent_encoded(a) + percent_encoded(b));
    }
}

} // verus!
