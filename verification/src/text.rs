//! Text helpers: ASCII bytes as a `String`, and equality of two texts.
use vstd::prelude::*;
use vstd::utf8::{encode_utf8, valid_utf8, is_ascii_chars, decode_utf8};

verus! {

/// Every byte is an ASCII code.
pub open spec fn all_ascii(bytes: Seq<u8>) -> bool {
    forall|i: int| 0 <= i < bytes.len() ==> #[trigger] bytes[i] < 128
}

/// The characters of ASCII codes.
pub open spec fn chars_of(bytes: Seq<u8>) -> Seq<char> {
    bytes.map_values(|b: u8| b as char)
}

/// ASCII codes read as characters encode in UTF-8 to the same bytes.
pub proof fn lemma_ascii_encode_utf8(bytes: Seq<u8>)
    requires
        all_ascii(bytes),
    ensures
        is_ascii_chars(chars_of(bytes)),
        encode_utf8(chars_of(bytes)) == bytes,
        valid_utf8(bytes),
        decode_utf8(bytes) == chars_of(bytes),
{
    let cs = chars_of(bytes);
    assert forall|i: int| 0 <= i < cs.len() implies '\0' <= #[trigger] cs[i] <= '\u{7f}' by {
        assert(bytes[i] < 128);
    }
    vstd::utf8::is_ascii_chars_encode_utf8(cs);
    assert forall|i: int| 0 <= i < cs.len() implies #[trigger] encode_utf8(cs)[i] == bytes[i] by {
        assert(cs[i] as u8 == encode_utf8(cs)[i]);
    }
    assert(encode_utf8(cs) =~= bytes);
    vstd::utf8::encode_utf8_valid_utf8(cs);
    vstd::utf8::encode_utf8_decode_utf8(cs);
}

/// `String::from_utf8`, on bytes that are valid UTF-8, gives the `String`
/// whose UTF-8 bytes are exactly those bytes (the `Err` case, which comes only
/// for bytes that are not valid UTF-8, is ruled out by `requires`).
#[verifier::external_body]
fn string_from_utf8(bytes: Vec<u8>) -> (s: String)
    requires
        valid_utf8(bytes@),
    ensures
        encode_utf8(s@) == bytes@,
{
    String::from_utf8(bytes).unwrap()
}

/// The `String` of the given ASCII codes.
pub fn string_from_ascii(bytes: Vec<u8>) -> (s: String)
    requires
        all_ascii(bytes@),
    ensures
        s@ == chars_of(bytes@),
        encode_utf8(s@) == bytes@,
{
    proof {
        lemma_ascii_encode_utf8(bytes@);
    }
    let s = string_from_utf8(bytes);
    proof {
        vstd::utf8::encode_utf8_decode_utf8(s@);
    }
    s
}


/// Whether two texts are the same characters.
pub fn text_eq(a: &str, b: &str) -> (same: bool)
    ensures
        same == (a@ == b@),
{
    let x = a.as_bytes();
    let y = b.as_bytes();
    proof {
        vstd::utf8::encode_utf8_decode_utf8(a@);
        vstd::utf8::encode_utf8_decode_utf8(b@);
    }
    if x.len() != y.len() {
        return false;
    }
    let n = x.len();
    let mut i: usize = 0;
    while i < n
        invariant
            n == x@.len(),
            n == y@.len(),
            i <= n,
            forall|k: int| 0 <= k < i ==> x@[k] == y@[k],
            a@ == b@ ==> x@ == y@,
            x@ == y@ ==> a@ == b@,
        decreases n - i,
    {
        if x[i] != y[i] {
            return false;
        }
        i = i + 1;
    }
    assert(x@ =~= y@);
    true
}


/// The decimal digit of a value below ten.
pub open spec fn digit(d: nat) -> char {
    ((d + 48) as u8) as char
}

/// The decimal digits of `n`, most significant first, without leading zeros.
pub open spec fn decimal_digits(n: nat) -> Seq<char>
    decreases n,
{
    if n < 10 {
        seq![digit(n)]
    } else {
        decimal_digits(n / 10) + seq![digit(n % 10)]
    }
}

/// The decimal text of an integer, with `-` before a negative one.
pub open spec fn decimal_text(n: int) -> Seq<char> {
    if n < 0 {
        seq!['-'] + decimal_digits((-n) as nat)
    } else {
        decimal_digits(n as nat)
    }
}

/// `i32::to_string`, which `Display` for integers defines as the decimal text,
/// with `-` before a negative value.
#[verifier::external_body]
pub(crate) fn int_text(n: i32) -> (text: String)
    ensures
        text@ == decimal_text(n as int),
{
    n.to_string()
}

} // verus!
