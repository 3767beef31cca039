//! Facts about the Base64 specification that the code and the laws rest on.
use vstd::prelude::*;
use super::spec::{
    symbol, sextet_value, spec_sextets, spec_bytes_from_sextets, INVALID_VALUE, PADDING,
    last_index_of, alphabet, data_bit, sextet_bit,
};

verus! {

/// The number of six-bit values that `n` bytes give.
pub open spec fn sextets_len(n: nat) -> nat {
    if n % 3 == 0 {
        (n / 3) * 4
    } else {
        (n / 3) * 4 + n % 3 + 1
    }
}

/// Every value of the alphabet has a symbol that is an ASCII code other than
/// `=`, and the symbol reads back as the value.
pub proof fn lemma_symbol(v: u8)
    requires
        v < 64,
    ensures
        symbol(v) < 128,
        symbol(v) != PADDING,
        sextet_value(symbol(v)) == v,
{
}

/// A byte that is in the alphabet is the symbol of its value.
pub proof fn lemma_sextet_value(b: u8)
    requires
        sextet_value(b) != INVALID_VALUE,
    ensures
        sextet_value(b) < 64,
        symbol(sextet_value(b)) == b,
        b != PADDING,
{
}

/// The six-bit groups of `data` are values below 64, `sextets_len` of them.
pub proof fn lemma_sextets_shape(data: Seq<u8>)
    ensures
        spec_sextets(data).len() == sextets_len(data.len()),
        forall|i: int| 0 <= i < spec_sextets(data).len() ==> #[trigger] spec_sextets(data)[i] < 64,
    decreases data.len(),
{
    if data.len() == 0 {
    } else if data.len() == 1 {
        let a = data[0];
        assert(a >> 2u8 < 64u8 && (a & 3u8) << 4u8 < 64u8) by (bit_vector);
    } else if data.len() == 2 {
        let a = data[0];
        let b = data[1];
        assert(a >> 2u8 < 64u8 && ((a & 3u8) << 4u8) | (b >> 4u8) < 64u8 && (b & 15u8) << 2u8
            < 64u8) by (bit_vector);
    } else {
        let a = data[0];
        let b = data[1];
        let c = data[2];
        assert(a >> 2u8 < 64u8 && ((a & 3u8) << 4u8) | (b >> 4u8) < 64u8 && ((b & 15u8) << 2u8) | (
        c >> 6u8) < 64u8 && c & 63u8 < 64u8) by (bit_vector);
        lemma_sextets_shape(data.skip(3));
        let head = seq![
            a >> 2u8,
            ((a & 3u8) << 4u8) | (b >> 4u8),
            ((b & 15u8) << 2u8) | (c >> 6u8),
            c & 63u8,
        ];
        assert(spec_sextets(data) == head + spec_sextets(data.skip(3)));
        assert forall|i: int| 0 <= i < spec_sextets(data).len() implies #[trigger] spec_sextets(
            data,
        )[i] < 64 by {
            if i >= 4 {
                assert(spec_sextets(data)[i] == spec_sextets(data.skip(3))[i - 4]);
            }
        }
    }
}


/// In the first `n` symbols of the alphabet, the last place of `b` is its value
/// when that value is below `n`; else `b` is not among them.
pub proof fn lemma_last_index_alphabet(n: nat, b: u8)
    requires
        n <= 64,
    ensures
        last_index_of(alphabet(), n, b) == if (sextet_value(b) as int) < n {
            sextet_value(b)
        } else {
            INVALID_VALUE
        },
    decreases n,
{
    if n > 0 {
        let v = (n - 1) as u8;
        lemma_symbol(v);
        if sextet_value(b) != INVALID_VALUE {
            lemma_sextet_value(b);
        }
        assert(alphabet()[n - 1] == symbol(v));
        lemma_last_index_alphabet((n - 1) as nat, b);
    }
}


/// The last six-bit value of a short last group has its missing bits zero.
pub proof fn lemma_sextets_last(data: Seq<u8>)
    ensures
        data.len() % 3 == 1 ==> spec_sextets(data).last() & 15u8 == 0,
        data.len() % 3 == 2 ==> spec_sextets(data).last() & 3u8 == 0,
    decreases data.len(),
{
    lemma_sextets_shape(data);
    if data.len() == 1 {
        let a = data[0];
        assert(((a & 3u8) << 4u8) & 15u8 == 0) by (bit_vector);
    } else if data.len() == 2 {
        let b = data[1];
        assert(((b & 15u8) << 2u8) & 3u8 == 0) by (bit_vector);
    } else if data.len() >= 3 {
        lemma_sextets_last(data.skip(3));
        lemma_sextets_shape(data.skip(3));
        let rest = spec_sextets(data.skip(3));
        if data.len() % 3 != 0 {
            assert(spec_sextets(data).last() == rest.last());
        }
    }
}

/// Reading back the six-bit groups of `data` gives `data`.
pub proof fn lemma_bytes_of_sextets(data: Seq<u8>)
    ensures
        spec_bytes_from_sextets(spec_sextets(data)) == data,
    decreases data.len(),
{
    let s = spec_sextets(data);
    lemma_sextets_shape(data);
    if data.len() == 0 {
    } else if data.len() == 1 {
        let a = data[0];
        assert(((a >> 2u8) << 2u8) | (((a & 3u8) << 4u8) >> 4u8) == a) by (bit_vector);
        assert(spec_bytes_from_sextets(s) =~= data);
    } else if data.len() == 2 {
        let a = data[0];
        let b = data[1];
        assert(((a >> 2u8) << 2u8) | ((((a & 3u8) << 4u8) | (b >> 4u8)) >> 4u8) == a && ((((a
            & 3u8) << 4u8) | (b >> 4u8)) << 4u8) | (((b & 15u8) << 2u8) >> 2u8) == b)
            by (bit_vector);
        assert(spec_bytes_from_sextets(s) =~= data);
    } else {
        let a = data[0];
        let b = data[1];
        let c = data[2];
        assert(((a >> 2u8) << 2u8) | ((((a & 3u8) << 4u8) | (b >> 4u8)) >> 4u8) == a && ((((a
            & 3u8) << 4u8) | (b >> 4u8)) << 4u8) | ((((b & 15u8) << 2u8) | (c >> 6u8)) >> 2u8)
            == b && ((((b & 15u8) << 2u8) | (c >> 6u8)) << 6u8) | (c & 63u8) == c)
            by (bit_vector);
        lemma_bytes_of_sextets(data.skip(3));
        let rest = spec_sextets(data.skip(3));
        assert(s.skip(4) =~= rest);
        assert(spec_bytes_from_sextets(s) =~= seq![a, b, c] + spec_bytes_from_sextets(rest));
        assert(data =~= seq![a, b, c] + data.skip(3));
    }
}

/// The six-bit groups of the bytes that `vals` stands for are `vals`, when
/// `vals` is a possible sequence of groups: values below 64, a length that is
/// not one more than a multiple of four, and a short last group whose missing
/// bits are zero.
pub proof fn lemma_sextets_of_bytes(vals: Seq<u8>)
    requires
        forall|i: int| 0 <= i < vals.len() ==> #[trigger] vals[i] < 64,
        vals.len() % 4 != 1,
        vals.len() % 4 == 2 ==> vals.last() & 15u8 == 0,
        vals.len() % 4 == 3 ==> vals.last() & 3u8 == 0,
    ensures
        spec_sextets(spec_bytes_from_sextets(vals)) == vals,
    decreases vals.len(),
{
    let bytes = spec_bytes_from_sextets(vals);
    if vals.len() == 0 {
        assert(spec_sextets(bytes) =~= vals);
    } else if vals.len() == 2 {
        let s0 = vals[0];
        let s1 = vals[1];
        assert(((s0 << 2u8) | (s1 >> 4u8)) >> 2u8 == s0 && (((s0 << 2u8) | (s1 >> 4u8)) & 3u8)
            << 4u8 == s1) by (bit_vector)
            requires
                s0 < 64u8,
                s1 < 64u8,
                s1 & 15u8 == 0u8,
        ;
        assert(spec_sextets(bytes) =~= vals);
    } else if vals.len() == 3 {
        let s0 = vals[0];
        let s1 = vals[1];
        let s2 = vals[2];
        let b0 = (s0 << 2u8) | (s1 >> 4u8);
        let b1 = (s1 << 4u8) | (s2 >> 2u8);
        assert(b0 >> 2u8 == s0 && ((b0 & 3u8) << 4u8) | (b1 >> 4u8) == s1 && (b1 & 15u8) << 2u8
            == s2) by (bit_vector)
            requires
                s0 < 64u8,
                s1 < 64u8,
                s2 < 64u8,
                s2 & 3u8 == 0u8,
                b0 == (s0 << 2u8) | (s1 >> 4u8),
                b1 == (s1 << 4u8) | (s2 >> 2u8),
        ;
        assert(spec_sextets(bytes) =~= vals);
    } else {
        let s0 = vals[0];
        let s1 = vals[1];
        let s2 = vals[2];
        let s3 = vals[3];
        let b0 = (s0 << 2u8) | (s1 >> 4u8);
        let b1 = (s1 << 4u8) | (s2 >> 2u8);
        let b2 = (s2 << 6u8) | s3;
        assert(b0 >> 2u8 == s0 && ((b0 & 3u8) << 4u8) | (b1 >> 4u8) == s1 && ((b1 & 15u8) << 2u8)
            | (b2 >> 6u8) == s2 && b2 & 63u8 == s3) by (bit_vector)
            requires
                s0 < 64u8,
                s1 < 64u8,
                s2 < 64u8,
                s3 < 64u8,
                b0 == (s0 << 2u8) | (s1 >> 4u8),
                b1 == (s1 << 4u8) | (s2 >> 2u8),
                b2 == (s2 << 6u8) | s3,
        ;
        let tail = vals.skip(4);
        assert forall|i: int| 0 <= i < tail.len() implies #[trigger] tail[i] < 64 by {
            assert(tail[i] == vals[i + 4]);
        }
        if tail.len() > 0 {
            assert(tail.last() == vals.last());
        }
        lemma_sextets_of_bytes(tail);
        let rest = spec_bytes_from_sextets(tail);
        assert(bytes == seq![b0, b1, b2] + rest);
        assert(bytes.skip(3) =~= rest);
        assert(spec_sextets(bytes) == seq![s0, s1, s2, s3] + spec_sextets(rest));
        assert(spec_sextets(bytes) =~= vals);
    }
}


/// Bit `r` (from the top) of a byte, read in a 32-bit word.
proof fn lemma_bit_widen(x: u8, r: u8)
    requires
        r < 8,
    ensures
        ((x >> r) & 1u8) as u32 == ((x as u32) >> (r as u32)) & 1u32,
{
    assert(((x >> r) & 1u8) as u32 == ((x as u32) >> (r as u32)) & 1u32) by (bit_vector)
        requires
            r < 8u8,
    ;
}

/// Within a group of three bytes, bit `j` of the four six-bit values is bit
/// `j` of the bytes.
pub proof fn lemma_group_bits(d0: u8, d1: u8, d2: u8, j: int)
    requires
        0 <= j < 24,
    ensures
        sextet_bit(
            seq![
                d0 >> 2u8,
                ((d0 & 3u8) << 4u8) | (d1 >> 4u8),
                ((d1 & 15u8) << 2u8) | (d2 >> 6u8),
                d2 & 63u8,
            ],
            j,
        ) == data_bit(seq![d0, d1, d2], j),
{
    let s = seq![
        d0 >> 2u8,
        ((d0 & 3u8) << 4u8) | (d1 >> 4u8),
        ((d1 & 15u8) << 2u8) | (d2 >> 6u8),
        d2 & 63u8,
    ];
    let d = seq![d0, d1, d2];
    let w: u32 = ((d0 as u32) * 0x10000u32 + (d1 as u32) * 0x100u32 + (d2 as u32)) as u32;
    assert(w < 0x1000000u32 && (d0 >> 2u8) as u32 == (w >> 18u32) & 63u32 && (((d0 & 3u8) << 4u8)
        | (d1 >> 4u8)) as u32 == (w >> 12u32) & 63u32 && (((d1 & 15u8) << 2u8) | (d2 >> 6u8))
        as u32 == (w >> 6u32) & 63u32 && (d2 & 63u8) as u32 == w & 63u32 && d0 as u32 == (w
        >> 16u32) & 255u32 && d1 as u32 == (w >> 8u32) & 255u32 && d2 as u32 == w & 255u32)
        by (bit_vector)
        requires
            w == (d0 as u32) * 0x10000u32 + (d1 as u32) * 0x100u32 + (d2 as u32),
    ;
    let ju = j as u32;
    let q6 = ju / 6u32;
    let r6 = ju % 6u32;
    let q8 = ju / 8u32;
    let r8 = ju % 8u32;
    assert((((w >> ((18u32 - 6u32 * q6) as u32)) & 63u32) >> ((5u32 - r6) as u32)) & 1u32 == (((w >> ((16u32 - 8u32 * q8) as u32)) & 255u32) >> ((7u32 - r8) as u32)) & 1u32) by (bit_vector)
        requires
            ju < 24u32,
            w < 0x1000000u32,
            q6 == ju / 6u32,
            r6 == ju % 6u32,
            q8 == ju / 8u32,
            r8 == ju % 8u32,
    ;
    assert(ju as int == j && q6 as int == j / 6 && r6 as int == j % 6 && q8 as int == j / 8 && r8
        as int == j % 8);
    assert(s[j / 6] as u32 == (w >> ((18u32 - 6u32 * q6) as u32)) & 63u32) by {
        if q6 == 0 {
            assert(((18u32 - 6u32 * q6) as u32) == 18u32);
        } else if q6 == 1 {
            assert(((18u32 - 6u32 * q6) as u32) == 12u32);
        } else if q6 == 2 {
            assert(((18u32 - 6u32 * q6) as u32) == 6u32);
        } else {
            assert(((18u32 - 6u32 * q6) as u32) == 0u32);
            assert(w >> 0u32 == w) by (bit_vector);
        }
    }
    assert(d[j / 8] as u32 == (w >> ((16u32 - 8u32 * q8) as u32)) & 255u32) by {
        if q8 == 0 {
            assert(((16u32 - 8u32 * q8) as u32) == 16u32);
        } else if q8 == 1 {
            assert(((16u32 - 8u32 * q8) as u32) == 8u32);
        } else {
            assert(((16u32 - 8u32 * q8) as u32) == 0u32);
            assert(w >> 0u32 == w) by (bit_vector);
        }
    }
    assert(((5u32 - r6) as u32) == ((5 - j % 6) as u8) as u32);
    assert(((7u32 - r8) as u32) == ((7 - j % 8) as u8) as u32);
    lemma_bit_widen(s[j / 6], (5 - j % 6) as u8);
    lemma_bit_widen(d[j / 8], (7 - j % 8) as u8);
}


/// Within a group of four six-bit values, bit `j` of the three bytes they
/// stand for is bit `j` of the values.
pub proof fn lemma_group_bytes_bits(s0: u8, s1: u8, s2: u8, s3: u8, j: int)
    requires
        s0 < 64,
        s1 < 64,
        s2 < 64,
        s3 < 64,
        0 <= j < 24,
    ensures
        data_bit(
            seq![(s0 << 2u8) | (s1 >> 4u8), (s1 << 4u8) | (s2 >> 2u8), (s2 << 6u8) | s3],
            j,
        ) == sextet_bit(seq![s0, s1, s2, s3], j),
{
    let s = seq![s0, s1, s2, s3];
    let d = seq![(s0 << 2u8) | (s1 >> 4u8), (s1 << 4u8) | (s2 >> 2u8), (s2 << 6u8) | s3];
    let w: u32 = ((s0 as u32) * 0x40000u32 + (s1 as u32) * 0x1000u32 + (s2 as u32) * 0x40u32
        + (s3 as u32)) as u32;
    assert(s0 as u32 == (w >> 18u32) & 63u32 && s1 as u32 == (w >> 12u32) & 63u32 && s2 as u32
        == (w >> 6u32) & 63u32 && s3 as u32 == (w >> 0u32) & 63u32 && ((s0 << 2u8) | (s1 >> 4u8))
        as u32 == (w >> 16u32) & 255u32 && ((s1 << 4u8) | (s2 >> 2u8)) as u32 == (w >> 8u32)
        & 255u32 && ((s2 << 6u8) | s3) as u32 == (w >> 0u32) & 255u32 && w < 0x1000000u32)
        by (bit_vector)
        requires
            s0 < 64u8,
            s1 < 64u8,
            s2 < 64u8,
            s3 < 64u8,
            w == (s0 as u32) * 0x40000u32 + (s1 as u32) * 0x1000u32 + (s2 as u32) * 0x40u32 + (
            s3 as u32),
    ;
    let ju = j as u32;
    let q6 = ju / 6u32;
    let r6 = ju % 6u32;
    let q8 = ju / 8u32;
    let r8 = ju % 8u32;
    assert((((w >> ((18u32 - 6u32 * q6) as u32)) & 63u32) >> ((5u32 - r6) as u32)) & 1u32 == (((w
        >> ((16u32 - 8u32 * q8) as u32)) & 255u32) >> ((7u32 - r8) as u32)) & 1u32) by (bit_vector)
        requires
            ju < 24u32,
            w < 0x1000000u32,
            q6 == ju / 6u32,
            r6 == ju % 6u32,
            q8 == ju / 8u32,
            r8 == ju % 8u32,
    ;
    assert(ju as int == j && q6 as int == j / 6 && r6 as int == j % 6 && q8 as int == j / 8 && r8
        as int == j % 8);
    assert(s[j / 6] as u32 == (w >> ((18u32 - 6u32 * q6) as u32)) & 63u32) by {
        if q6 == 0 {
            assert(((18u32 - 6u32 * q6) as u32) == 18u32);
        } else if q6 == 1 {
            assert(((18u32 - 6u32 * q6) as u32) == 12u32);
        } else if q6 == 2 {
            assert(((18u32 - 6u32 * q6) as u32) == 6u32);
        } else {
            assert(((18u32 - 6u32 * q6) as u32) == 0u32);
        }
    }
    assert(d[j / 8] as u32 == (w >> ((16u32 - 8u32 * q8) as u32)) & 255u32) by {
        if q8 == 0 {
            assert(((16u32 - 8u32 * q8) as u32) == 16u32);
        } else if q8 == 1 {
            assert(((16u32 - 8u32 * q8) as u32) == 8u32);
        } else {
            assert(((16u32 - 8u32 * q8) as u32) == 0u32);
        }
    }
    assert(((5u32 - r6) as u32) == ((5 - j % 6) as u8) as u32);
    assert(((7u32 - r8) as u32) == ((7 - j % 8) as u8) as u32);
    lemma_bit_widen(s[j / 6], (5 - j % 6) as u8);
    lemma_bit_widen(d[j / 8], (7 - j % 8) as u8);
}

} // verus!
