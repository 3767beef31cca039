//! The mathematical meaning of Base64 (RFC 4648, standard alphabet, with
//! padding), stated over sequences of bytes.
use vstd::prelude::*;

verus! {

/// The byte `=` that fills an encoding up to a multiple of four symbols.
pub const PADDING: u8 = 61u8;

/// The value that a decode table holds for a byte outside the alphabet.
pub const INVALID_VALUE: u8 = 0xffu8;

/// The symbol of the alphabet `A-Z a-z 0-9 + /` that stands for a six-bit value.
pub open spec fn symbol(v: u8) -> u8 {
    if v < 26 {
        (v + 65) as u8
    } else if v < 52 {
        (v + 71) as u8
    } else if v < 62 {
        (v - 4) as u8
    } else if v == 62 {
        43u8
    } else {
        47u8
    }
}

/// The six-bit value that a symbol of the alphabet stands for, or
/// `INVALID_VALUE` for a byte that is not in the alphabet.
pub open spec fn sextet_value(b: u8) -> u8 {
    if 65 <= b <= 90 {
        (b - 65) as u8
    } else if 97 <= b <= 122 {
        (b - 71) as u8
    } else if 48 <= b <= 57 {
        (b + 4) as u8
    } else if b == 43 {
        62u8
    } else if b == 47 {
        63u8
    } else {
        INVALID_VALUE
    }
}

/// The six-bit groups of `data`, read from the front three bytes at a time;
/// a last group of one or two bytes gives two or three values, its missing
/// bits taken as zero.
pub open spec fn spec_sextets(data: Seq<u8>) -> Seq<u8>
    decreases data.len(),
{
    if data.len() == 0 {
        seq![]
    } else if data.len() == 1 {
        seq![data[0] >> 2u8, (data[0] & 3u8) << 4u8]
    } else if data.len() == 2 {
        seq![
            data[0] >> 2u8,
            ((data[0] & 3u8) << 4u8) | (data[1] >> 4u8),
            (data[1] & 15u8) << 2u8,
        ]
    } else {
        seq![
            data[0] >> 2u8,
            ((data[0] & 3u8) << 4u8) | (data[1] >> 4u8),
            ((data[1] & 15u8) << 2u8) | (data[2] >> 6u8),
            data[2] & 63u8,
        ] + spec_sextets(data.skip(3))
    }
}

/// Bit `i` of `data`, counting from the most significant bit of the first
/// byte; zero past the end.
pub open spec fn data_bit(data: Seq<u8>, i: int) -> u8 {
    if 0 <= i < 8 * data.len() {
        (data[i / 8] >> ((7 - i % 8) as u8)) & 1u8
    } else {
        0u8
    }
}

/// Bit `i` of a sequence of six-bit values, counting from the most
/// significant of the six bits of the first value.
pub open spec fn sextet_bit(vals: Seq<u8>, i: int) -> u8 {
    (vals[i / 6] >> ((5 - i % 6) as u8)) & 1u8
}

/// The number of padding symbols that bring a length up to a multiple of four.
pub open spec fn padding_len(n: nat) -> nat {
    ((4 - n % 4) % 4) as nat
}

/// `s` followed by as many `=` as make its length a multiple of four.
pub open spec fn pad_to_quad(s: Seq<u8>) -> Seq<u8> {
    s + Seq::new(padding_len(s.len()), |i: int| PADDING)
}

/// The Base64 encoding of `data`, as bytes.
pub open spec fn spec_encode(data: Seq<u8>) -> Seq<u8> {
    pad_to_quad(spec_sextets(data).map_values(|v: u8| symbol(v)))
}

/// The bytes that a sequence of six-bit values stands for: four values give
/// three bytes; a last group of two or three values gives one or two bytes.
pub open spec fn spec_bytes_from_sextets(s: Seq<u8>) -> Seq<u8>
    decreases s.len(),
{
    if s.len() < 2 {
        seq![]
    } else if s.len() == 2 {
        seq![(s[0] << 2u8) | (s[1] >> 4u8)]
    } else if s.len() == 3 {
        seq![(s[0] << 2u8) | (s[1] >> 4u8), (s[1] << 4u8) | (s[2] >> 2u8)]
    } else {
        seq![
            (s[0] << 2u8) | (s[1] >> 4u8),
            (s[1] << 4u8) | (s[2] >> 2u8),
            (s[2] << 6u8) | s[3],
        ] + spec_bytes_from_sextets(s.skip(4))
    }
}

/// How many `=` end an input of at least two bytes: two when both of the last
/// two bytes are `=`, one when only the last is, else none.
pub open spec fn spec_padding(input: Seq<u8>) -> nat
    recommends
        input.len() >= 2,
{
    if input[input.len() - 1] == PADDING && input[input.len() - 2] == PADDING {
        2
    } else if input[input.len() - 1] == PADDING {
        1
    } else {
        0
    }
}

/// The bits of the last symbol before the padding that must be zero.
pub open spec fn last_symbol_mask(padding: nat) -> u8 {
    if padding == 2 {
        15u8
    } else if padding == 1 {
        3u8
    } else {
        0u8
    }
}

/// `i` is the first position below `n` whose byte is not in the alphabet.
pub open spec fn first_invalid_at(input: Seq<u8>, n: int, i: int) -> bool {
    &&& 0 <= i < n
    &&& sextet_value(input[i]) == INVALID_VALUE
    &&& forall|j: int| 0 <= j < i ==> sextet_value(#[trigger] input[j]) != INVALID_VALUE
}

/// Some position below `n` holds a byte that is not in the alphabet.
pub open spec fn has_invalid_before(input: Seq<u8>, n: int) -> bool {
    exists|i: int| 0 <= i < n && sextet_value(#[trigger] input[i]) == INVALID_VALUE
}

/// Why an input is not a Base64 encoding.
#[derive(Debug, Clone, Copy, PartialEq, Eq, Structural)]
pub enum DecodeError {
    /// The input's length is not a multiple of four.
    InvalidLength,
    /// The byte at this position, before the padding, is not in the alphabet.
    InvalidByte(usize, u8),
    /// The last symbol before the padding has bits set that the padding
    /// says are not there.
    InvalidLastSymbol(usize, u8),
}

/// What decoding `input` gives: the empty input decodes to nothing; else the
/// length must be a multiple of four, every byte before the padding must be in
/// the alphabet (the first one that is not is reported), and the bits of the
/// last symbol that the padding drops must be zero.
pub open spec fn spec_decode(input: Seq<u8>) -> Result<Seq<u8>, DecodeError> {
    if input.len() == 0 {
        Ok(seq![])
    } else if input.len() % 4 != 0 {
        Err(DecodeError::InvalidLength)
    } else {
        let p = spec_padding(input);
        let n = input.len() - p;
        if has_invalid_before(input, n) {
            let i = choose|i: int| first_invalid_at(input, n, i);
            Err(DecodeError::InvalidByte(i as usize, input[i]))
        } else if sextet_value(input[n - 1]) & last_symbol_mask(p) != 0 {
            Err(DecodeError::InvalidLastSymbol((n - 1) as usize, input[n - 1]))
        } else {
            Ok(spec_bytes_from_sextets(input.take(n).map_values(|b: u8| sextet_value(b))))
        }
    }
}

/// The position in `table`, below `n`, of the last entry equal to `b`, or
/// `INVALID_VALUE` where none is.
pub open spec fn last_index_of(table: Seq<u8>, n: nat, b: u8) -> u8
    decreases n,
{
    if n == 0 {
        INVALID_VALUE
    } else if table[n - 1] == b {
        (n - 1) as u8
    } else {
        last_index_of(table, (n - 1) as nat, b)
    }
}

/// The alphabet as a table of 64 symbols.
pub open spec fn alphabet() -> Seq<u8> {
    Seq::new(64, |i: int| symbol(i as u8))
}

} // verus!
