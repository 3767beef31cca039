//! Base64 encoding and strict decoding.
use vstd::prelude::*;

pub mod spec;
mod lemmas;
pub mod laws;

pub use spec::DecodeError;
use spec::{
    symbol, sextet_value, spec_sextets, spec_encode, spec_decode, spec_padding, alphabet,
    padding_len, last_index_of, first_invalid_at, has_invalid_before,
    spec_bytes_from_sextets, PADDING, INVALID_VALUE,
};
use lemmas::{lemma_symbol, lemma_sextet_value, lemma_sextets_shape, lemma_last_index_alphabet};
use crate::text::{chars_of, string_from_ascii};
use vstd::utf8::encode_utf8;

verus! {

const LOW_6_BITS: u32 = 0x3fu32;

/// `u32::from_be_bytes`: the integer whose big-endian bytes are `b0 b1 b2 b3`.
#[verifier::external_body]
fn u32_from_be_bytes(b0: u8, b1: u8, b2: u8, b3: u8) -> (r: u32)
    ensures
        r as int == b0 as int * 0x1000000 + b1 as int * 0x10000 + b2 as int * 0x100 + b3 as int,
{
    u32::from_be_bytes([b0, b1, b2, b3])
}

/// Three bytes as four six-bit values.
fn into4bit6(byte1: u8, byte2: u8, byte3: u8) -> (r: (u8, u8, u8, u8))
    ensures
        r == (
            byte1 >> 2u8,
            ((byte1 & 3u8) << 4u8) | (byte2 >> 4u8),
            ((byte2 & 15u8) << 2u8) | (byte3 >> 6u8),
            byte3 & 63u8,
        ),
        r.0 < 64 && r.1 < 64 && r.2 < 64 && r.3 < 64,
{
    let bit32 = u32_from_be_bytes(0, byte1, byte2, byte3);
    proof {
        assert(((bit32 >> 18u32) & 0x3fu32) as u8 == byte1 >> 2u8
            && ((bit32 >> 12u32) & 0x3fu32) as u8 == ((byte1 & 3u8) << 4u8) | (byte2 >> 4u8)
            && ((bit32 >> 6u32) & 0x3fu32) as u8 == ((byte2 & 15u8) << 2u8) | (byte3 >> 6u8)
            && ((bit32 >> 0u32) & 0x3fu32) as u8 == byte3 & 63u8 && byte1 >> 2u8 < 64u8 && ((byte1
            & 3u8) << 4u8) | (byte2 >> 4u8) < 64u8 && ((byte2 & 15u8) << 2u8) | (byte3 >> 6u8)
            < 64u8 && byte3 & 63u8 < 64u8) by (bit_vector)
            requires
                bit32 == (byte1 as u32) * 0x10000u32 + (byte2 as u32) * 0x100u32 + (byte3 as u32);
    }
    (
        ((bit32 >> 18) & LOW_6_BITS) as u8,
        ((bit32 >> 12) & LOW_6_BITS) as u8,
        ((bit32 >> 6) & LOW_6_BITS) as u8,
        ((bit32 >> 0) & LOW_6_BITS) as u8,
    )
}


/// Two bytes, the last group of an input, as three six-bit values.
fn into3bit6(byte1: u8, byte2: u8) -> (r: (u8, u8, u8))
    ensures
        r == (byte1 >> 2u8, ((byte1 & 3u8) << 4u8) | (byte2 >> 4u8), (byte2 & 15u8) << 2u8),
        r.0 < 64 && r.1 < 64 && r.2 < 64 && r.2 & 3u8 == 0,
{
    let bit32 = u32_from_be_bytes(byte1, byte2, 0, 0);
    proof {
        assert(((bit32 >> 26u32) & 0x3fu32) as u8 == byte1 >> 2u8
            && ((bit32 >> 20u32) & 0x3fu32) as u8 == ((byte1 & 3u8) << 4u8) | (byte2 >> 4u8)
            && ((bit32 >> 14u32) & 0x3fu32) as u8 == (byte2 & 15u8) << 2u8 && byte1 >> 2u8 < 64u8
            && ((byte1 & 3u8) << 4u8) | (byte2 >> 4u8) < 64u8 && (byte2 & 15u8) << 2u8 < 64u8 && ((
            byte2 & 15u8) << 2u8) & 3u8 == 0u8) by (bit_vector)
            requires
                bit32 == (byte1 as u32) * 0x1000000u32 + (byte2 as u32) * 0x10000u32;
    }
    (
        ((bit32 >> 26) & LOW_6_BITS) as u8,
        ((bit32 >> 20) & LOW_6_BITS) as u8,
        ((bit32 >> 14) & LOW_6_BITS) as u8,
    )
}

/// One byte, the last group of an input, as two six-bit values.
fn into2bit6(byte1: u8) -> (r: (u8, u8))
    ensures
        r == (byte1 >> 2u8, (byte1 & 3u8) << 4u8),
        r.0 < 64 && r.1 < 64 && r.1 & 15u8 == 0,
{
    let bit32 = u32_from_be_bytes(byte1, 0, 0, 0);
    proof {
        assert(((bit32 >> 26u32) & 0x3fu32) as u8 == byte1 >> 2u8
            && ((bit32 >> 20u32) & 0x3fu32) as u8 == (byte1 & 3u8) << 4u8 && byte1 >> 2u8 < 64u8
            && (byte1 & 3u8) << 4u8 < 64u8 && ((byte1 & 3u8) << 4u8) & 15u8 == 0u8) by (bit_vector)
            requires
                bit32 == (byte1 as u32) * 0x1000000u32;
    }
    (((bit32 >> 26) & LOW_6_BITS) as u8, ((bit32 >> 20) & LOW_6_BITS) as u8)
}

/// The six-bit groups of `bytes`.
fn into_bit6s(bytes: &[u8]) -> (r: Vec<u8>)
    ensures
        r@ == spec_sextets(bytes@),
{
    let mut bit6s: Vec<u8> = Vec::new();
    let len = bytes.len();
    let mut i: usize = 0;
    assert(bytes@.skip(0) =~= bytes@);
    loop
        invariant
            i <= len,
            len == bytes@.len(),
            spec_sextets(bytes@) == bit6s@ + spec_sextets(bytes@.skip(i as int)),
        decreases len - i,
    {
        let ghost rest = bytes@.skip(i as int);
        if len - i == 0 {
            assert(bit6s@ + spec_sextets(rest) =~= bit6s@);
            return bit6s;
        } else if len - i == 1 {
            let (bit61, bit62) = into2bit6(bytes[i]);
            bit6s.push(bit61);
            bit6s.push(bit62);
            assert(spec_sextets(bytes@) =~= bit6s@);
            return bit6s;
        } else if len - i == 2 {
            let (bit61, bit62, bit63) = into3bit6(bytes[i], bytes[i + 1]);
            bit6s.push(bit61);
            bit6s.push(bit62);
            bit6s.push(bit63);
            assert(spec_sextets(bytes@) =~= bit6s@);
            return bit6s;
        } else {
            let ghost before = bit6s@;
            let (bit61, bit62, bit63, bit64) = into4bit6(bytes[i], bytes[i + 1], bytes[i + 2]);
            bit6s.push(bit61);
            bit6s.push(bit62);
            bit6s.push(bit63);
            bit6s.push(bit64);
            assert(rest.skip(3) =~= bytes@.skip(i + 3));
            assert(spec_sextets(rest) == seq![bit61, bit62, bit63, bit64] + spec_sextets(rest.skip(3)));
            assert(bit6s@ =~= before + seq![bit61, bit62, bit63, bit64]);
            assert(spec_sextets(bytes@) =~= bit6s@ + spec_sextets(bytes@.skip(i + 3)));
        }
        i = i + 3;
    }
}


/// The symbol of a six-bit value.
fn symbol_of(v: u8) -> (r: u8)
    requires
        v < 64,
    ensures
        r == symbol(v),
{
    if v < 26 {
        v + 65
    } else if v < 52 {
        v + 71
    } else if v < 62 {
        v - 4
    } else if v == 62 {
        43
    } else {
        47
    }
}

/// The 64 symbols of the alphabet `A-Z a-z 0-9 + /`, in the order of their values.
pub fn base64_encode_table() -> (table: Vec<u8>)
    ensures
        table@ == alphabet(),
{
    let mut table: Vec<u8> = Vec::new();
    let mut v: u8 = 0;
    while v < 64
        invariant
            v <= 64,
            table@ =~= alphabet().take(v as int),
        decreases 64 - v,
    {
        table.push(symbol_of(v));
        v = v + 1;
    }
    table
}

/// The Base64 encoding of `input`, padded with `=` to a multiple of four symbols.
pub fn encode(input: &[u8]) -> (encoded: String)
    ensures
        encoded@ == chars_of(spec_encode(input@)),
        encode_utf8(encoded@) == spec_encode(input@),
{
    let table = base64_encode_table();
    let bit6s = into_bit6s(input);
    proof {
        lemma_sextets_shape(input@);
    }
    let ghost symbols = bit6s@.map_values(|v: u8| symbol(v));
    let mut encode: Vec<u8> = Vec::new();
    let n = bit6s.len();
    for i in 0..n
        invariant
            n == bit6s@.len(),
            table@ == alphabet(),
            forall|k: int| 0 <= k < n ==> #[trigger] bit6s@[k] < 64,
            symbols == bit6s@.map_values(|v: u8| symbol(v)),
            encode@ =~= symbols.take(i as int),
    {
        let v = bit6s[i];
        assert(table@[v as int] == symbol(v));
        encode.push(table[v as usize]);
    }
    let ghost pad = padding_len(n as nat);
    while encode.len() % 4 != 0
        invariant
            n <= encode.len() <= n + pad,
            pad == padding_len(n as nat),
            symbols == bit6s@.map_values(|v: u8| symbol(v)),
            bit6s@ == spec_sextets(input@),
            encode@ =~= symbols + Seq::new((encode.len() - n) as nat, |i: int| PADDING),
        decreases n + pad - encode.len(),
    {
        encode.push(PADDING);
    }
    proof {
        assert(encode@ =~= spec_encode(input@));
        assert forall|i: int| 0 <= i < encode@.len() implies #[trigger] encode@[i] < 128 by {
            if i < n {
                lemma_symbol(bit6s@[i]);
            }
        }
    }
    string_from_ascii(encode)
}


/// A table, indexed by byte, of the value that each symbol of the alphabet stands for.
pub open spec fn is_base64_decode_table(table: Seq<u8>) -> bool {
    &&& table.len() == 256
    &&& forall|b: u8| #[trigger] table[b as int] == sextet_value(b)
}

/// The table, indexed by byte, that gives for each byte its last position
/// among the first 64 entries of `encode_table`, or `INVALID_VALUE` where it
/// is not there.
pub fn generate_decode_table_from(encode_table: &[u8]) -> (decode_table: Vec<u8>)
    requires
        encode_table@.len() >= 64,
    ensures
        decode_table@.len() == 256,
        forall|b: u8| #[trigger] decode_table@[b as int] == last_index_of(encode_table@, 64, b),
{
    let mut decode_table: Vec<u8> = Vec::new();
    let mut k: usize = 0;
    while k < 256
        invariant
            k <= 256,
            decode_table@.len() == k,
            forall|j: int| 0 <= j < k ==> #[trigger] decode_table@[j] == INVALID_VALUE,
        decreases 256 - k,
    {
        decode_table.push(INVALID_VALUE);
        k = k + 1;
    }
    let mut index: usize = 0;
    while index < 64
        invariant
            index <= 64,
            encode_table@.len() >= 64,
            decode_table@.len() == 256,
            forall|b: u8| #[trigger]
                decode_table@[b as int] == last_index_of(encode_table@, index as nat, b),
        decreases 64 - index,
    {
        let symbol = encode_table[index];
        decode_table.set(symbol as usize, index as u8);
        assert forall|b: u8| #[trigger]
            decode_table@[b as int] == last_index_of(encode_table@, (index + 1) as nat, b) by {
            if b != symbol {
                assert(decode_table@[b as int] == last_index_of(encode_table@, index as nat, b));
            }
        }
        index = index + 1;
    }
    decode_table
}

/// The decode table of the Base64 alphabet.
fn base64_decode_table() -> (table: Vec<u8>)
    ensures
        is_base64_decode_table(table@),
{
    let encode_table = base64_encode_table();
    let table = generate_decode_table_from(encode_table.as_slice());
    assert forall|b: u8| #[trigger] table@[b as int] == sextet_value(b) by {
        lemma_last_index_alphabet(64, b);
    }
    table
}

/// Four six-bit values as three bytes.
fn into3byte(bit61: u8, bit62: u8, bit63: u8, bit64: u8) -> (r: (u8, u8, u8))
    requires
        bit61 < 64,
        bit62 < 64,
        bit63 < 64,
        bit64 < 64,
    ensures
        r == (
            (bit61 << 2u8) | (bit62 >> 4u8),
            (bit62 << 4u8) | (bit63 >> 2u8),
            (bit63 << 6u8) | bit64,
        ),
{
    proof {
        assert((bit61 << 2u8) + (bit62 >> 4u8) == (bit61 << 2u8) | (bit62 >> 4u8) && (bit62 << 4u8)
            + (bit63 >> 2u8) == (bit62 << 4u8) | (bit63 >> 2u8) && (bit63 << 6u8) + (bit64 >> 0u8)
            == (bit63 << 6u8) | bit64) by (bit_vector)
            requires
                bit61 < 64u8,
                bit62 < 64u8,
                bit63 < 64u8,
                bit64 < 64u8,
        ;
    }
    ((bit61 << 2) + (bit62 >> 4), (bit62 << 4) + (bit63 >> 2), (bit63 << 6) + (bit64 >> 0))
}

/// Three six-bit values, the last group of an input, as two bytes.
fn into2byte(bit61: u8, bit62: u8, bit63: u8) -> (r: (u8, u8))
    requires
        bit61 < 64,
        bit62 < 64,
        bit63 < 64,
    ensures
        r == ((bit61 << 2u8) | (bit62 >> 4u8), (bit62 << 4u8) | (bit63 >> 2u8)),
{
    proof {
        assert((bit61 << 2u8) + (bit62 >> 4u8) == (bit61 << 2u8) | (bit62 >> 4u8) && (bit62 << 4u8)
            + (bit63 >> 2u8) == (bit62 << 4u8) | (bit63 >> 2u8)) by (bit_vector)
            requires
                bit61 < 64u8,
                bit62 < 64u8,
                bit63 < 64u8,
        ;
    }
    ((bit61 << 2) + (bit62 >> 4), (bit62 << 4) + (bit63 >> 2))
}

/// Two six-bit values, the last group of an input, as one byte.
fn into1byte(bit61: u8, bit62: u8) -> (r: u8)
    requires
        bit61 < 64,
        bit62 < 64,
    ensures
        r == (bit61 << 2u8) | (bit62 >> 4u8),
{
    proof {
        assert((bit61 << 2u8) + (bit62 >> 4u8) == (bit61 << 2u8) | (bit62 >> 4u8)) by (bit_vector)
            requires
                bit61 < 64u8,
                bit62 < 64u8,
        ;
    }
    (bit61 << 2) + (bit62 >> 4)
}

/// The bytes that a sequence of six-bit values stands for.
fn into_bytes(bit6s: &[u8]) -> (bytes: Vec<u8>)
    requires
        bit6s@.len() % 4 != 1,
        forall|i: int| 0 <= i < bit6s@.len() ==> #[trigger] bit6s@[i] < 64,
    ensures
        bytes@ == spec_bytes_from_sextets(bit6s@),
{
    let mut bytes: Vec<u8> = Vec::new();
    let len = bit6s.len();
    let mut i: usize = 0;
    assert(bit6s@.skip(0) =~= bit6s@);
    loop
        invariant
            i <= len,
            len == bit6s@.len(),
            i % 4 == 0,
            len % 4 != 1,
            forall|k: int| 0 <= k < len ==> #[trigger] bit6s@[k] < 64,
            spec_bytes_from_sextets(bit6s@) == bytes@ + spec_bytes_from_sextets(
                bit6s@.skip(i as int),
            ),
        decreases len - i,
    {
        let ghost rest = bit6s@.skip(i as int);
        if len - i == 0 {
            assert(bytes@ + spec_bytes_from_sextets(rest) =~= bytes@);
            return bytes;
        } else if len - i == 2 {
            let byte = into1byte(bit6s[i], bit6s[i + 1]);
            bytes.push(byte);
            assert(spec_bytes_from_sextets(bit6s@) =~= bytes@);
            return bytes;
        } else if len - i == 3 {
            let (byte1, byte2) = into2byte(bit6s[i], bit6s[i + 1], bit6s[i + 2]);
            bytes.push(byte1);
            bytes.push(byte2);
            assert(spec_bytes_from_sextets(bit6s@) =~= bytes@);
            return bytes;
        } else {
            let ghost before = bytes@;
            let (byte1, byte2, byte3) = into3byte(
                bit6s[i],
                bit6s[i + 1],
                bit6s[i + 2],
                bit6s[i + 3],
            );
            bytes.push(byte1);
            bytes.push(byte2);
            bytes.push(byte3);
            assert(rest.skip(4) =~= bit6s@.skip(i + 4));
            assert(spec_bytes_from_sextets(rest) == seq![byte1, byte2, byte3]
                + spec_bytes_from_sextets(rest.skip(4)));
            assert(bytes@ =~= before + seq![byte1, byte2, byte3]);
            assert(spec_bytes_from_sextets(bit6s@) =~= bytes@ + spec_bytes_from_sextets(
                bit6s@.skip(i + 4),
            ));
        }
        i = i + 4;
    }
}

/// How many `=` end `input`: two when its last two bytes are `=`, one when
/// only the last is, else none.
fn count_padding(input: &[u8]) -> (padding: usize)
    requires
        input@.len() >= 2,
    ensures
        padding == spec_padding(input@),
{
    let (last, last2) = (input[input.len() - 1], input[input.len() - 2]);
    if last == PADDING && last2 == PADDING {
        2
    } else if last == PADDING {
        1
    } else {
        0
    }
}


/// Whether `input` is a Base64 encoding that `decode` accepts, and if not the
/// error that `decode` gives for it.
fn validate_decoding_target(input: &[u8], table: &Vec<u8>) -> (r: Result<(), DecodeError>)
    requires
        is_base64_decode_table(table@),
    ensures
        r is Ok <==> spec_decode(input@) is Ok,
        r matches Err(e) ==> spec_decode(input@) == Err::<Seq<u8>, DecodeError>(e),
{
    if input.len() == 0 {
        return Ok(());
    }
    if input.len() % 4 != 0 {
        return Err(DecodeError::InvalidLength);
    }
    let padding = count_padding(input);
    let n = input.len() - padding;
    let mut index: usize = 0;
    while index < n
        invariant
            index <= n,
            input@.len() > 0,
            input@.len() % 4 == 0,
            padding == spec_padding(input@),
            n == input@.len() - padding,
            is_base64_decode_table(table@),
            forall|j: int| 0 <= j < index ==> sextet_value(#[trigger] input@[j]) != INVALID_VALUE,
        decreases n - index,
    {
        let value = input[index];
        if table[value as usize] == INVALID_VALUE {
            proof {
                assert(table@[value as int] == sextet_value(value));
                assert(first_invalid_at(input@, n as int, index as int));
                let k = choose|k: int| first_invalid_at(input@, n as int, k);
                assert(k == index) by {
                    if k < index {
                        assert(sextet_value(input@[k]) != INVALID_VALUE);
                    } else if k > index {
                        assert(sextet_value(input@[index as int]) != INVALID_VALUE);
                    }
                }
            }
            assert(has_invalid_before(input@, n as int));
            return Err(DecodeError::InvalidByte(index, value));
        }
        index = index + 1;
    }
    let last_non_pad_index = input.len() - padding - 1;
    let last_non_pad_elem = input[last_non_pad_index];
    let mask: u8 = if padding == 2 {
        15
    } else if padding == 1 {
        3
    } else {
        0
    };
    assert(table@[last_non_pad_elem as int] == sextet_value(last_non_pad_elem));
    if table[last_non_pad_elem as usize] & mask != 0 {
        return Err(DecodeError::InvalidLastSymbol(last_non_pad_index, last_non_pad_elem));
    }
    Ok(())
}

/// The bytes that the Base64 encoding `input` stands for, or why `input` is
/// not one: see `spec_decode`.
pub fn decode(input: &[u8]) -> (r: Result<Vec<u8>, DecodeError>)
    ensures
        r matches Ok(bytes) ==> spec_decode(input@) == Ok::<Seq<u8>, DecodeError>(bytes@),
        r matches Err(e) ==> spec_decode(input@) == Err::<Seq<u8>, DecodeError>(e),
{
    if input.len() == 0 {
        return Ok(Vec::new());
    }
    let table = base64_decode_table();
    if let Err(e) = validate_decoding_target(input, &table) {
        return Err(e);
    }
    let padding = count_padding(input);
    let n = input.len() - padding;
    let ghost values = input@.take(n as int).map_values(|b: u8| sextet_value(b));
    let mut bit6s: Vec<u8> = Vec::new();
    for i in 0..n
        invariant
            n <= input@.len(),
            is_base64_decode_table(table@),
            values == input@.take(n as int).map_values(|b: u8| sextet_value(b)),
            bit6s@ =~= values.take(i as int),
    {
        let value = input[i];
        assert(table@[value as int] == sextet_value(value));
        bit6s.push(table[value as usize]);
    }
    proof {
        assert(bit6s@ =~= values);
        assert(!has_invalid_before(input@, n as int));
        assert forall|i: int| 0 <= i < bit6s@.len() implies #[trigger] bit6s@[i] < 64 by {
            assert(sextet_value(input@[i]) != INVALID_VALUE);
            lemma_sextet_value(input@[i]);
        }
    }
    let decoded = into_bytes(bit6s.as_slice());
    Ok(decoded)
}

} // verus!
