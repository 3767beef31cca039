//! What holds of encoding and decoding together.
use vstd::prelude::*;
use super::spec::{
    symbol, sextet_value, spec_sextets, spec_encode, spec_decode, spec_padding, padding_len,
    last_symbol_mask, has_invalid_before, DecodeError, data_bit, sextet_bit,
    spec_bytes_from_sextets,
    PADDING, INVALID_VALUE,
};
use super::lemmas::{
    lemma_symbol, lemma_sextet_value, lemma_sextets_shape, lemma_sextets_last,
    lemma_bytes_of_sextets, lemma_sextets_of_bytes, lemma_group_bits, lemma_group_bytes_bits,
};
use crate::text::all_ascii;

verus! {

/// An encoding has four symbols for every three bytes or part of three, and
/// is made of ASCII codes: symbols of the alphabet, then as many `=` as the
/// last group of the input lacks bytes.
pub proof fn law_encoded_length(data: Seq<u8>)
    ensures
        spec_encode(data).len() == 4 * ((data.len() + 2) / 3),
        all_ascii(spec_encode(data)),
        forall|i: int|
            0 <= i < spec_encode(data).len() - (3 - data.len() % 3) % 3 ==> sextet_value(
                #[trigger] spec_encode(data)[i],
            ) != INVALID_VALUE,
        forall|i: int|
            spec_encode(data).len() - (3 - data.len() % 3) % 3 <= i < spec_encode(data).len()
                ==> #[trigger] spec_encode(data)[i] == PADDING,
{
    lemma_sextets_shape(data);
    let m = spec_sextets(data);
    let e = spec_encode(data);
    assert forall|i: int| 0 <= i < e.len() implies #[trigger] e[i] < 128 by {
        if i < m.len() {
            lemma_symbol(m[i]);
        }
    }
    assert forall|i: int| 0 <= i < e.len() - (3 - data.len() % 3) % 3 implies sextet_value(
        #[trigger] e[i],
    ) != INVALID_VALUE by {
        lemma_symbol(m[i]);
    }
}

/// Decoding the encoding of any bytes gives back those bytes.
pub proof fn law_decode_of_encode(data: Seq<u8>)
    ensures
        spec_decode(spec_encode(data)) == Ok::<Seq<u8>, DecodeError>(data),
{
    lemma_sextets_shape(data);
    lemma_sextets_last(data);
    lemma_bytes_of_sextets(data);
    let m = spec_sextets(data);
    let symbols = m.map_values(|v: u8| symbol(v));
    let e = spec_encode(data);
    let p = padding_len(m.len());
    assert(e == symbols + Seq::new(p, |i: int| PADDING));
    if data.len() == 0 {
        assert(e =~= Seq::<u8>::empty());
    } else {
        assert(m.len() >= 2);
        assert forall|i: int| 0 <= i < m.len() implies #[trigger] e[i] == symbol(m[i])
            && sextet_value(e[i]) == m[i] && e[i] != PADDING by {
            lemma_symbol(m[i]);
        }
        assert(spec_padding(e) == p);
        let n = e.len() - p;
        assert(n == m.len());
        assert(!has_invalid_before(e, n));
        assert(sextet_value(e[n - 1]) == m.last());
        assert(sextet_value(e[n - 1]) & last_symbol_mask(p) == 0) by {
            let last = m.last();
            assert(last & 0u8 == 0) by (bit_vector);
        }
        assert(e.take(n).map_values(|b: u8| sextet_value(b)) =~= m);
    }
}

/// Every input that decoding accepts is the encoding of what it decodes to:
/// the decoder accepts exactly one text for each sequence of bytes.
pub proof fn law_encode_of_decode(input: Seq<u8>, data: Seq<u8>)
    requires
        spec_decode(input) == Ok::<Seq<u8>, DecodeError>(data),
    ensures
        spec_encode(data) == input,
{
    if input.len() == 0 {
        assert(spec_sextets(data) =~= Seq::<u8>::empty());
        assert(spec_encode(data) =~= input);
    } else {
        let p = spec_padding(input);
        let n = input.len() - p;
        let vals = input.take(n).map_values(|b: u8| sextet_value(b));
        assert forall|i: int| 0 <= i < vals.len() implies #[trigger] vals[i] < 64
            && symbol(vals[i]) == input[i] by {
            assert(sextet_value(input[i]) != INVALID_VALUE);
            lemma_sextet_value(input[i]);
        }
        assert(n % 4 == 2 ==> vals.last() & 15u8 == 0);
        assert(n % 4 == 3 ==> vals.last() & 3u8 == 0);
        lemma_sextets_of_bytes(vals);
        assert(spec_sextets(data) == vals);
        assert(padding_len(n as nat) == p);
        assert(vals.map_values(|v: u8| symbol(v)) =~= input.take(n));
        assert(spec_encode(data) =~= input);
    }
}


/// The six-bit groups of two inputs joined, the first a whole number of
/// three-byte groups, are the groups of each, joined.
pub proof fn law_sextets_concat(a: Seq<u8>, b: Seq<u8>)
    requires
        a.len() % 3 == 0,
    ensures
        spec_sextets(a + b) == spec_sextets(a) + spec_sextets(b),
    decreases a.len(),
{
    if a.len() == 0 {
        assert(a + b =~= b);
        assert(spec_sextets(a) =~= Seq::<u8>::empty());
        assert(spec_sextets(a) + spec_sextets(b) =~= spec_sextets(b));
    } else {
        let ab = a + b;
        assert(ab[0] == a[0] && ab[1] == a[1] && ab[2] == a[2]);
        assert(ab.skip(3) =~= a.skip(3) + b);
        law_sextets_concat(a.skip(3), b);
        let head = seq![
            a[0] >> 2u8,
            ((a[0] & 3u8) << 4u8) | (a[1] >> 4u8),
            ((a[1] & 15u8) << 2u8) | (a[2] >> 6u8),
            a[2] & 63u8,
        ];
        assert(spec_sextets(ab) == head + spec_sextets(ab.skip(3)));
        assert(spec_sextets(a) == head + spec_sextets(a.skip(3)));
        assert(spec_sextets(ab) =~= spec_sextets(a) + spec_sextets(b));
    }
}

/// The encoding of two inputs joined, the first a whole number of three-byte
/// groups, is the encoding of each, joined.
pub proof fn law_encode_concat(a: Seq<u8>, b: Seq<u8>)
    requires
        a.len() % 3 == 0,
    ensures
        spec_encode(a + b) == spec_encode(a) + spec_encode(b),
{
    law_sextets_concat(a, b);
    lemma_sextets_shape(a);
    let sa = spec_sextets(a);
    let sb = spec_sextets(b);
    let f = |v: u8| symbol(v);
    assert((sa + sb).map_values(f) =~= sa.map_values(f) + sb.map_values(f));
    assert(sa.len() % 4 == 0);
    assert(spec_encode(a) =~= sa.map_values(f));
    assert(spec_encode(a + b) =~= spec_encode(a) + spec_encode(b));
}


/// The six-bit groups of `data` are its bits read six at a time: there are
/// `(8n + 5) / 6` of them for `n` bytes, and bit `i` of the groups is bit `i`
/// of the bytes, the missing bits of a short last group being zero.
pub proof fn law_sextet_bits(data: Seq<u8>)
    ensures
        spec_sextets(data).len() == (8 * data.len() + 5) / 6,
        forall|i: int|
            0 <= i < 6 * spec_sextets(data).len() ==> #[trigger] sextet_bit(spec_sextets(data), i)
                == data_bit(data, i),
    decreases data.len(),
{
    lemma_sextets_shape(data);
    let n = data.len();
    let m = spec_sextets(data);
    if n == 0 {
        return;
    }
    let d0 = data[0];
    let d1 = if n > 1 {
        data[1]
    } else {
        0u8
    };
    let d2 = if n > 2 {
        data[2]
    } else {
        0u8
    };
    let g = seq![
        d0 >> 2u8,
        ((d0 & 3u8) << 4u8) | (d1 >> 4u8),
        ((d1 & 15u8) << 2u8) | (d2 >> 6u8),
        d2 & 63u8,
    ];
    let pd = seq![d0, d1, d2];
    assert(((d0 & 3u8) << 4u8) | (0u8 >> 4u8) == (d0 & 3u8) << 4u8 && ((d1 & 15u8) << 2u8) | (0u8
        >> 6u8) == (d1 & 15u8) << 2u8) by (bit_vector);
    assert forall|k: int| 0 <= k < 4 && k < m.len() implies #[trigger] m[k] == g[k] by {}
    if n > 3 {
        law_sextet_bits(data.skip(3));
    }
    assert forall|i: int| 0 <= i < 6 * m.len() implies #[trigger] sextet_bit(m, i) == data_bit(
        data,
        i,
    ) by {
        if i < 24 {
            assert(m[i / 6] == g[i / 6]);
            lemma_group_bits(d0, d1, d2, i);
            if i < 8 * n {
                assert(pd[i / 8] == data[i / 8]);
            } else {
                let z = pd[i / 8];
                assert(z == 0u8);
                let k = (7 - i % 8) as u8;
                assert((0u8 >> k) & 1u8 == 0u8) by (bit_vector);
            }
        } else {
            let rest = data.skip(3);
            let mr = spec_sextets(rest);
            assert(m == g + mr);
            assert(m[i / 6] == mr[(i - 24) / 6]);
            assert(sextet_bit(m, i) == sextet_bit(mr, i - 24));
            if i < 8 * n {
                assert(data[i / 8] == rest[(i - 24) / 8]);
            }
            assert(data_bit(data, i) == data_bit(rest, i - 24));
        }
    }
}

/// Bit `i` of what an input decodes to is bit `i` of the six-bit values of
/// its symbols before the padding.
pub proof fn law_decoded_bits(input: Seq<u8>, data: Seq<u8>)
    requires
        spec_decode(input) == Ok::<Seq<u8>, DecodeError>(data),
    ensures
        forall|i: int|
            0 <= i < 8 * data.len() ==> #[trigger] data_bit(data, i) == sextet_bit(
                input.take(input.len() - spec_padding(input)).map_values(|b: u8| sextet_value(b)),
                i,
            ),
{
    if input.len() > 0 {
        let p = spec_padding(input);
        let n = input.len() - p;
        let vals = input.take(n).map_values(|b: u8| sextet_value(b));
        assert forall|i: int| 0 <= i < vals.len() implies #[trigger] vals[i] < 64 by {
            assert(sextet_value(input[i]) != INVALID_VALUE);
            lemma_sextet_value(input[i]);
        }
        assert(n % 4 == 2 ==> vals.last() & 15u8 == 0);
        assert(n % 4 == 3 ==> vals.last() & 3u8 == 0);
        lemma_sextets_of_bytes(vals);
        law_sextet_bits(data);
    } else {
        assert(data =~= Seq::<u8>::empty());
    }
}


/// Decoding accepts exactly the encodings of byte sequences.
pub proof fn law_decodable_iff_encoding(input: Seq<u8>)
    ensures
        spec_decode(input) is Ok <==> exists|data: Seq<u8>| #[trigger] spec_encode(data) == input,
{
    if spec_decode(input) is Ok {
        let data = spec_decode(input)->Ok_0;
        law_encode_of_decode(input, data);
        assert(spec_encode(data) == input);
    }
    if exists|data: Seq<u8>| #[trigger] spec_encode(data) == input {
        let data = choose|data: Seq<u8>| #[trigger] spec_encode(data) == input;
        law_decode_of_encode(data);
    }
}


/// Reading back the six-bit groups of any bytes gives those bytes: for one,
/// two or three bytes this is each group read back.
pub proof fn law_bytes_of_sextets(data: Seq<u8>)
    ensures
        spec_bytes_from_sextets(spec_sextets(data)) == data,
{
    lemma_bytes_of_sextets(data);
}

/// The six-bit groups of the bytes that six-bit values stand for are those
/// values, when they are below 64, their number is not one more than a
/// multiple of four, and a short last group has its dropped bits zero; for
/// four values this is each group read back.
pub proof fn law_sextets_of_bytes(vals: Seq<u8>)
    requires
        forall|i: int| 0 <= i < vals.len() ==> #[trigger] vals[i] < 64,
        vals.len() % 4 != 1,
        vals.len() % 4 == 2 ==> vals.last() & 15u8 == 0,
        vals.len() % 4 == 3 ==> vals.last() & 3u8 == 0,
    ensures
        spec_sextets(spec_bytes_from_sextets(vals)) == vals,
{
    lemma_sextets_of_bytes(vals);
}

/// The bytes that `m` six-bit values stand for are their bits read eight at a
/// time: `6m / 8` bytes, bit `i` of which is bit `i` of the values; the
/// `6m - 8 * (6m / 8)` bits left over are dropped.
pub proof fn law_byte_bits(vals: Seq<u8>)
    requires
        forall|i: int| 0 <= i < vals.len() ==> #[trigger] vals[i] < 64,
        vals.len() % 4 != 1,
    ensures
        spec_bytes_from_sextets(vals).len() == (6 * vals.len()) / 8,
        forall|i: int|
            0 <= i < 8 * spec_bytes_from_sextets(vals).len() ==> #[trigger] data_bit(
                spec_bytes_from_sextets(vals),
                i,
            ) == sextet_bit(vals, i),
    decreases vals.len(),
{
    let m = vals.len();
    let bytes = spec_bytes_from_sextets(vals);
    if m == 0 {
        return;
    }
    let s0 = vals[0];
    let s1 = vals[1];
    let s2 = if m > 2 {
        vals[2]
    } else {
        0u8
    };
    let s3 = if m > 3 {
        vals[3]
    } else {
        0u8
    };
    let pv = seq![s0, s1, s2, s3];
    let d = seq![(s0 << 2u8) | (s1 >> 4u8), (s1 << 4u8) | (s2 >> 2u8), (s2 << 6u8) | s3];
    assert forall|k: int| 0 <= k < 3 && k < bytes.len() implies #[trigger] bytes[k] == d[k] by {}
    if m > 4 {
        let rest = vals.skip(4);
        assert forall|i: int| 0 <= i < rest.len() implies #[trigger] rest[i] < 64 by {
            assert(rest[i] == vals[i + 4]);
        }
        law_byte_bits(rest);
    }
    assert forall|i: int| 0 <= i < 8 * bytes.len() implies #[trigger] data_bit(bytes, i)
        == sextet_bit(vals, i) by {
        if i < 24 {
            lemma_group_bytes_bits(s0, s1, s2, s3, i);
            assert(bytes[i / 8] == d[i / 8]);
            assert(vals[i / 6] == pv[i / 6]);
        } else {
            let rest = vals.skip(4);
            let br = spec_bytes_from_sextets(rest);
            assert(bytes == d + br);
            assert(bytes[i / 8] == br[(i - 24) / 8]);
            assert(data_bit(bytes, i) == data_bit(br, i - 24));
            assert(vals[i / 6] == rest[(i - 24) / 6]);
            assert(sextet_bit(vals, i) == sextet_bit(rest, i - 24));
        }
    }
}

} // verus!
