//! The bech32-family encoding of version-0 witness programs: character
//! set, checksum polynomial, 5-bit regrouping, and the encoding and
//! decoding of pay-to-witness-public-key-hash addresses.
use vstd::prelude::*;

use crate::address::Network;

verus! {

/// The bech32 alphabet, indexed by 5-bit value.
pub open spec fn bech32_charset() -> Seq<u8> {
    seq![
        113u8, 112u8, 122u8, 114u8, 121u8, 57u8, 120u8, 56u8,
        103u8, 102u8, 50u8, 116u8, 118u8, 100u8, 119u8, 48u8,
        115u8, 51u8, 106u8, 110u8, 53u8, 52u8, 107u8, 104u8,
        99u8, 101u8, 54u8, 109u8, 117u8, 97u8, 55u8, 108u8,
    ]
}

/// Maps one 5-bit value to its address character.
pub fn charset_byte(v: u8) -> (r: u8)
    requires
        v < 32,
    ensures
        r == bech32_charset()[v as int],
        r < 0x80,
{
    match v {
        0 => 113u8,
        1 => 112u8,
        2 => 122u8,
        3 => 114u8,
        4 => 121u8,
        5 => 57u8,
        6 => 120u8,
        7 => 56u8,
        8 => 103u8,
        9 => 102u8,
        10 => 50u8,
        11 => 116u8,
        12 => 118u8,
        13 => 100u8,
        14 => 119u8,
        15 => 48u8,
        16 => 115u8,
        17 => 51u8,
        18 => 106u8,
        19 => 110u8,
        20 => 53u8,
        21 => 52u8,
        22 => 107u8,
        23 => 104u8,
        24 => 99u8,
        25 => 101u8,
        26 => 54u8,
        27 => 109u8,
        28 => 117u8,
        29 => 97u8,
        30 => 55u8,
        _ => 108u8,
    }
}

/// The value of an address character, or 32 for a byte outside the
/// alphabet.
pub open spec fn char_value(c: u8) -> u8 {
    if c == 113u8 { 0 }
    else if c == 112u8 { 1 }
    else if c == 122u8 { 2 }
    else if c == 114u8 { 3 }
    else if c == 121u8 { 4 }
    else if c == 57u8 { 5 }
    else if c == 120u8 { 6 }
    else if c == 56u8 { 7 }
    else if c == 103u8 { 8 }
    else if c == 102u8 { 9 }
    else if c == 50u8 { 10 }
    else if c == 116u8 { 11 }
    else if c == 118u8 { 12 }
    else if c == 100u8 { 13 }
    else if c == 119u8 { 14 }
    else if c == 48u8 { 15 }
    else if c == 115u8 { 16 }
    else if c == 51u8 { 17 }
    else if c == 106u8 { 18 }
    else if c == 110u8 { 19 }
    else if c == 53u8 { 20 }
    else if c == 52u8 { 21 }
    else if c == 107u8 { 22 }
    else if c == 104u8 { 23 }
    else if c == 99u8 { 24 }
    else if c == 101u8 { 25 }
    else if c == 54u8 { 26 }
    else if c == 109u8 { 27 }
    else if c == 117u8 { 28 }
    else if c == 97u8 { 29 }
    else if c == 55u8 { 30 }
    else if c == 108u8 { 31 }
    else { 32 }
}

/// Looks up the value of an address character.
pub fn char_value_exec(c: u8) -> (r: u8)
    ensures
        r == char_value(c),
{
    if c == 113u8 { 0 }
    else if c == 112u8 { 1 }
    else if c == 122u8 { 2 }
    else if c == 114u8 { 3 }
    else if c == 121u8 { 4 }
    else if c == 57u8 { 5 }
    else if c == 120u8 { 6 }
    else if c == 56u8 { 7 }
    else if c == 103u8 { 8 }
    else if c == 102u8 { 9 }
    else if c == 50u8 { 10 }
    else if c == 116u8 { 11 }
    else if c == 118u8 { 12 }
    else if c == 100u8 { 13 }
    else if c == 119u8 { 14 }
    else if c == 48u8 { 15 }
    else if c == 115u8 { 16 }
    else if c == 51u8 { 17 }
    else if c == 106u8 { 18 }
    else if c == 110u8 { 19 }
    else if c == 53u8 { 20 }
    else if c == 52u8 { 21 }
    else if c == 107u8 { 22 }
    else if c == 104u8 { 23 }
    else if c == 99u8 { 24 }
    else if c == 101u8 { 25 }
    else if c == 54u8 { 26 }
    else if c == 109u8 { 27 }
    else if c == 117u8 { 28 }
    else if c == 97u8 { 29 }
    else if c == 55u8 { 30 }
    else if c == 108u8 { 31 }
    else { 32 }
}

/// Every charset byte decodes back to its value.
pub proof fn lemma_charset_round_trip(v: u8)
    requires
        v < 32,
    ensures
        char_value(bech32_charset()[v as int]) == v,
{
}

/// One step of the BCH checksum polynomial.
pub open spec fn polymod_step(chk: u32, v: u8) -> u32 {
    let b = chk >> 25;
    (((chk & 0x1ffffff) << 5) ^ (v as u32)) ^ (if b & 1 != 0 {
        0x3b6a57b2u32
    } else {
        0
    }) ^ (if b & 2 != 0 {
        0x26508e6du32
    } else {
        0
    }) ^ (if b & 4 != 0 {
        0x1ea119fau32
    } else {
        0
    }) ^ (if b & 8 != 0 {
        0x3d4233ddu32
    } else {
        0
    }) ^ (if b & 16 != 0 {
        0x2a1462b3u32
    } else {
        0
    })
}

/// The checksum polynomial folded over a sequence of 5-bit values,
/// starting from the given state.
pub open spec fn polymod_from(chk: u32, values: Seq<u8>) -> u32
    decreases values.len(),
{
    if values.len() == 0 {
        chk
    } else {
        polymod_step(polymod_from(chk, values.drop_last()), values.last())
    }
}

/// One checksum step, executably.
fn polymod_step_exec(chk: u32, v: u8) -> (r: u32)
    ensures
        r == polymod_step(chk, v),
{
    let b: u32 = chk >> 25;
    let t1: u32 = if b & 1 != 0 { 0x3b6a57b2 } else { 0 };
    let t2: u32 = if b & 2 != 0 { 0x26508e6d } else { 0 };
    let t3: u32 = if b & 4 != 0 { 0x1ea119fa } else { 0 };
    let t4: u32 = if b & 8 != 0 { 0x3d4233dd } else { 0 };
    let t5: u32 = if b & 16 != 0 { 0x2a1462b3 } else { 0 };
    (((chk & 0x1ffffff) << 5) ^ (v as u32)) ^ t1 ^ t2 ^ t3 ^ t4 ^ t5
}

/// The checksum polynomial over a vector of values.
#[verifier::loop_isolation(false)]
pub fn polymod_exec(values: &Vec<u8>, chk0: u32) -> (r: u32)
    ensures
        r == polymod_from(chk0, values@),
{
    let mut chk: u32 = chk0;
    let mut i: usize = 0;
    while i < values.len()
        invariant
            i <= values@.len(),
            chk == polymod_from(chk0, values@.take(i as int)),
        decreases values@.len() - i,
    {
        chk = polymod_step_exec(chk, values[i]);
        proof {
            assert(values@.take(i + 1).drop_last() =~= values@.take(i as int));
        }
        i = i + 1;
    }
    proof {
        assert(values@.take(values@.len() as int) =~= values@);
    }
    chk
}

/// The human-readable prefix of each network.
pub open spec fn hrp_bytes(network: Network) -> Seq<u8> {
    match network {
        Network::Mainnet => seq![98u8, 99u8],
        Network::Testnet => seq![116u8, 98u8],
        Network::Regtest => seq![98u8, 99u8, 114u8, 116u8],
    }
}

/// The prefix, executably.
pub fn hrp_vec(network: Network) -> (r: Vec<u8>)
    ensures
        r@ == hrp_bytes(network),
        forall|i: int| 0 <= i < r@.len() ==> r@[i] < 0x80,
{
    let mut r: Vec<u8> = Vec::new();
    match network {
        Network::Mainnet => {
            r.push(98u8);
            r.push(99u8);
        },
        Network::Testnet => {
            r.push(116u8);
            r.push(98u8);
        },
        Network::Regtest => {
            r.push(98u8);
            r.push(99u8);
            r.push(114u8);
            r.push(116u8);
        },
    }
    proof {
        assert(r@ =~= hrp_bytes(network));
    }
    r
}

/// The prefix expanded for the checksum: high bits, a zero, low bits.
pub open spec fn hrp_expand(hrp: Seq<u8>) -> Seq<u8> {
    Seq::new(hrp.len(), |i: int| hrp[i] >> 5) + seq![0u8] + Seq::new(
        hrp.len(),
        |i: int| hrp[i] & 31,
    )
}

/// Expands the prefix, executably.
#[verifier::loop_isolation(false)]
pub fn hrp_expand_exec(hrp: &Vec<u8>) -> (r: Vec<u8>)
    ensures
        r@ == hrp_expand(hrp@),
{
    let mut r: Vec<u8> = Vec::new();
    let mut i: usize = 0;
    while i < hrp.len()
        invariant
            i <= hrp@.len(),
            r@ =~= Seq::new(hrp@.len(), |j: int| hrp@[j] >> 5).take(i as int),
        decreases hrp@.len() - i,
    {
        r.push(hrp[i] >> 5);
        proof {
            assert(r@ =~= Seq::new(hrp@.len(), |j: int| hrp@[j] >> 5).take(i + 1));
        }
        i = i + 1;
    }
    r.push(0);
    let ghost mid = r@;
    proof {
        assert(mid =~= Seq::new(hrp@.len(), |j: int| hrp@[j] >> 5) + seq![0u8]);
    }
    let mut k: usize = 0;
    while k < hrp.len()
        invariant
            k <= hrp@.len(),
            r@ =~= mid + Seq::new(hrp@.len(), |j: int| hrp@[j] & 31).take(k as int),
        decreases hrp@.len() - k,
    {
        r.push(hrp[k] & 31);
        proof {
            assert(r@ =~= mid + Seq::new(hrp@.len(), |j: int| hrp@[j] & 31).take(k + 1));
        }
        k = k + 1;
    }
    proof {
        assert(r@ =~= hrp_expand(hrp@));
    }
    r
}

/// Eight 5-bit values carrying the forty bits of five bytes.
pub open spec fn group5_of(b0: u8, b1: u8, b2: u8, b3: u8, b4: u8) -> Seq<u8> {
    seq![
        b0 >> 3,
        ((b0 & 7) << 2) | (b1 >> 6),
        (b1 >> 1) & 31,
        ((b1 & 1) << 4) | (b2 >> 4),
        ((b2 & 15) << 1) | (b3 >> 7),
        (b3 >> 2) & 31,
        ((b3 & 3) << 3) | (b4 >> 5),
        b4 & 31,
    ]
}

/// The first `c` five-byte chunks of a witness program, regrouped into
/// 5-bit values.
pub open spec fn groups_upto(p: Seq<u8>, c: int) -> Seq<u8>
    decreases c,
{
    if c <= 0 {
        Seq::empty()
    } else {
        groups_upto(p, c - 1) + group5_of(
            p[5 * (c - 1)],
            p[5 * (c - 1) + 1],
            p[5 * (c - 1) + 2],
            p[5 * (c - 1) + 3],
            p[5 * (c - 1) + 4],
        )
    }
}

/// A 20-byte witness program as thirty-two 5-bit values.
pub open spec fn program_groups(p: Seq<u8>) -> Seq<u8> {
    groups_upto(p, 4)
}

/// Each regrouped value fits five bits.
proof fn lemma_group5_bounds(b0: u8, b1: u8, b2: u8, b3: u8, b4: u8)
    ensures
        forall|i: int| 0 <= i < 8 ==> group5_of(b0, b1, b2, b3, b4)[i] < 32,
{
    assert((b0 >> 3) < 32 && (((b0 & 7) << 2) | (b1 >> 6)) < 32 && ((b1 >> 1) & 31) < 32 && (((b1
        & 1) << 4) | (b2 >> 4)) < 32 && (((b2 & 15) << 1) | (b3 >> 7)) < 32 && ((b3 >> 2) & 31)
        < 32 && (((b3 & 3) << 3) | (b4 >> 5)) < 32 && (b4 & 31) < 32) by (bit_vector);
}

/// Regroups a 20-byte program into thirty-two 5-bit values.
#[verifier::loop_isolation(false)]
pub fn program_groups_exec(p: &Vec<u8>) -> (r: Vec<u8>)
    requires
        p@.len() == 20,
    ensures
        r@ == program_groups(p@),
        forall|i: int| 0 <= i < r@.len() ==> r@[i] < 32,
{
    let mut r: Vec<u8> = Vec::new();
    let mut c: usize = 0;
    while c < 4
        invariant
            c <= 4,
            r@ =~= groups_upto(p@, c as int),
            forall|i: int| 0 <= i < r@.len() ==> r@[i] < 32,
        decreases 4 - c,
    {
        let b0 = p[5 * c];
        let b1 = p[5 * c + 1];
        let b2 = p[5 * c + 2];
        let b3 = p[5 * c + 3];
        let b4 = p[5 * c + 4];
        proof {
            lemma_group5_bounds(b0, b1, b2, b3, b4);
        }
        r.push(b0 >> 3);
        r.push(((b0 & 7) << 2) | (b1 >> 6));
        r.push((b1 >> 1) & 31);
        r.push(((b1 & 1) << 4) | (b2 >> 4));
        r.push(((b2 & 15) << 1) | (b3 >> 7));
        r.push((b3 >> 2) & 31);
        r.push(((b3 & 3) << 3) | (b4 >> 5));
        r.push(b4 & 31);
        proof {
            assert(r@ =~= groups_upto(p@, c as int) + group5_of(b0, b1, b2, b3, b4));
            assert(r@ =~= groups_upto(p@, c + 1));
        }
        c = c + 1;
    }
    r
}

/// The six checksum values appended after the data: chosen so that the
/// polynomial over prefix, data and checksum comes to one.
pub open spec fn checksum_of_values(vals: Seq<u8>) -> Seq<u8> {
    let pm = polymod_from(1, vals + seq![0u8, 0u8, 0u8, 0u8, 0u8, 0u8]) ^ 1;
    seq![
        ((pm >> 25) & 31) as u8,
        ((pm >> 20) & 31) as u8,
        ((pm >> 15) & 31) as u8,
        ((pm >> 10) & 31) as u8,
        ((pm >> 5) & 31) as u8,
        (pm & 31) as u8,
    ]
}

/// Computes the checksum values for the given prefix-expansion-plus-data.
pub fn checksum_exec(vals: &Vec<u8>) -> (r: Vec<u8>)
    ensures
        r@ == checksum_of_values(vals@),
        forall|i: int| 0 <= i < r@.len() ==> r@[i] < 32,
{
    let mut padded = vals.clone();
    padded.push(0);
    padded.push(0);
    padded.push(0);
    padded.push(0);
    padded.push(0);
    padded.push(0);
    proof {
        assert(padded@ =~= vals@ + seq![0u8, 0u8, 0u8, 0u8, 0u8, 0u8]);
    }
    let pm: u32 = polymod_exec(&padded, 1) ^ 1;
    let mut r: Vec<u8> = Vec::new();
    r.push(((pm >> 25) & 31) as u8);
    r.push(((pm >> 20) & 31) as u8);
    r.push(((pm >> 15) & 31) as u8);
    r.push(((pm >> 10) & 31) as u8);
    r.push(((pm >> 5) & 31) as u8);
    r.push((pm & 31) as u8);
    proof {
        assert(r@ =~= checksum_of_values(vals@));
        assert(((pm >> 25) & 31) < 32 && ((pm >> 20) & 31) < 32 && ((pm >> 15) & 31) < 32 && ((pm
            >> 10) & 31) < 32 && ((pm >> 5) & 31) < 32 && (pm & 31) < 32) by (bit_vector);
    }
    r
}

/// The checksum polynomial splits over concatenation.
pub proof fn lemma_polymod_append(chk: u32, a: Seq<u8>, b: Seq<u8>)
    ensures
        polymod_from(chk, a + b) == polymod_from(polymod_from(chk, a), b),
    decreases b.len(),
{
    if b.len() == 0 {
        assert(a + b =~= a);
    } else {
        lemma_polymod_append(chk, a, b.drop_last());
        assert((a + b).drop_last() =~= a + b.drop_last());
        assert((a + b).last() == b.last());
    }
}

/// One checksum step on a state XOR a low disturbance: the disturbance
/// shifts up and the fed value joins it, while the feedback taps see the
/// same state.
proof fn lemma_step_xor(x: u32, e: u32, v: u8)
    requires
        e < 0x2000000,
    ensures
        polymod_step(x ^ e, v) == polymod_step(x, 0) ^ ((e << 5) ^ (v as u32)),
{
    assert((((((x ^ e) & 0x1ffffff) << 5) ^ (v as u32)) ^ (if ((x ^ e) >> 25) & 1 != 0 {
        0x3b6a57b2u32
    } else {
        0u32
    }) ^ (if ((x ^ e) >> 25) & 2 != 0 {
        0x26508e6du32
    } else {
        0u32
    }) ^ (if ((x ^ e) >> 25) & 4 != 0 {
        0x1ea119fau32
    } else {
        0u32
    }) ^ (if ((x ^ e) >> 25) & 8 != 0 {
        0x3d4233ddu32
    } else {
        0u32
    }) ^ (if ((x ^ e) >> 25) & 16 != 0 {
        0x2a1462b3u32
    } else {
        0u32
    })) == ((((x & 0x1ffffff) << 5) ^ (0u8 as u32)) ^ (if (x >> 25) & 1 != 0 {
        0x3b6a57b2u32
    } else {
        0u32
    }) ^ (if (x >> 25) & 2 != 0 {
        0x26508e6du32
    } else {
        0u32
    }) ^ (if (x >> 25) & 4 != 0 {
        0x1ea119fau32
    } else {
        0u32
    }) ^ (if (x >> 25) & 8 != 0 {
        0x3d4233ddu32
    } else {
        0u32
    }) ^ (if (x >> 25) & 16 != 0 {
        0x2a1462b3u32
    } else {
        0u32
    })) ^ ((e << 5) ^ (v as u32))) by (bit_vector)
        requires
            e < 0x2000000,
    ;
}

/// The checksum state always fits thirty bits.
proof fn lemma_polymod_bound(chk: u32, values: Seq<u8>)
    requires
        chk < 0x40000000,
    ensures
        polymod_from(chk, values) < 0x40000000,
    decreases values.len(),
{
    if values.len() > 0 {
        lemma_polymod_bound(chk, values.drop_last());
        let x = polymod_from(chk, values.drop_last());
        let v = values.last();
        assert(((((x & 0x1ffffff) << 5) ^ (v as u32)) ^ (if (x >> 25) & 1 != 0 {
            0x3b6a57b2u32
        } else {
            0u32
        }) ^ (if (x >> 25) & 2 != 0 {
            0x26508e6du32
        } else {
            0u32
        }) ^ (if (x >> 25) & 4 != 0 {
            0x1ea119fau32
        } else {
            0u32
        }) ^ (if (x >> 25) & 8 != 0 {
            0x3d4233ddu32
        } else {
            0u32
        }) ^ (if (x >> 25) & 16 != 0 {
            0x2a1462b3u32
        } else {
            0u32
        })) < 0x40000000) by (bit_vector);
    }
}

/// Six fed values land in the low thirty bits of the state untouched by
/// the feedback taps: the run over them equals the run over zeros XOR
/// the values spread five bits apart.
proof fn lemma_polymod_six(s: u32, c0: u8, c1: u8, c2: u8, c3: u8, c4: u8, c5: u8)
    requires
        c0 < 32,
        c1 < 32,
        c2 < 32,
        c3 < 32,
        c4 < 32,
        c5 < 32,
    ensures
        polymod_from(s, seq![c0, c1, c2, c3, c4, c5]) == polymod_from(
            s,
            seq![0u8, 0u8, 0u8, 0u8, 0u8, 0u8],
        ) ^ (((c0 as u32) << 25) ^ ((c1 as u32) << 20) ^ ((c2 as u32) << 15) ^ ((c3 as u32) << 10)
            ^ ((c4 as u32) << 5) ^ (c5 as u32)),
{
    let cs = seq![c0, c1, c2, c3, c4, c5];
    let zs = seq![0u8, 0u8, 0u8, 0u8, 0u8, 0u8];
    let k0 = c0 as u32;
    let k1 = c1 as u32;
    let k2 = c2 as u32;
    let k3 = c3 as u32;
    let k4 = c4 as u32;
    let k5 = c5 as u32;
    let e1 = k0;
    let e2 = (e1 << 5) ^ k1;
    let e3 = (e2 << 5) ^ k2;
    let e4 = (e3 << 5) ^ k3;
    let e5 = (e4 << 5) ^ k4;
    let e6 = (e5 << 5) ^ k5;
    assert(((0u32 << 5) ^ k0) == k0 && e1 < 0x20 && e2 < 0x400 && e3 < 0x8000 && e4 < 0x100000
        && e5 < 0x2000000 && e6 == (k0 << 25) ^ (k1 << 20) ^ (k2 << 15) ^ (k3 << 10) ^ (k4 << 5)
        ^ k5) by (bit_vector)
        requires
            k0 < 32 && k1 < 32 && k2 < 32 && k3 < 32 && k4 < 32 && k5 < 32 && e1 == k0 && e2 == ((
            e1 << 5) ^ k1) && e3 == ((e2 << 5) ^ k2) && e4 == ((e3 << 5) ^ k3) && e5 == ((e4 << 5)
                ^ k4) && e6 == ((e5 << 5) ^ k5),
    ;
    let q1 = polymod_step(s, 0);
    let q2 = polymod_step(q1, 0);
    let q3 = polymod_step(q2, 0);
    let q4 = polymod_step(q3, 0);
    let q5 = polymod_step(q4, 0);
    let q6 = polymod_step(q5, 0);
    lemma_step_xor(s, 0, c0);
    assert(s ^ 0 == s) by (bit_vector);
    let p1 = polymod_step(s, c0);
    assert(p1 == q1 ^ e1);
    lemma_step_xor(q1, e1, c1);
    let p2 = polymod_step(p1, c1);
    assert(p2 == q2 ^ e2);
    lemma_step_xor(q2, e2, c2);
    let p3 = polymod_step(p2, c2);
    assert(p3 == q3 ^ e3);
    lemma_step_xor(q3, e3, c3);
    let p4 = polymod_step(p3, c3);
    assert(p4 == q4 ^ e4);
    lemma_step_xor(q4, e4, c4);
    let p5 = polymod_step(p4, c4);
    assert(p5 == q5 ^ e5);
    lemma_step_xor(q5, e5, c5);
    let p6 = polymod_step(p5, c5);
    assert(p6 == q6 ^ e6);
    reveal_with_fuel(polymod_from, 8);
    assert(cs.drop_last() =~= seq![c0, c1, c2, c3, c4]);
    assert(seq![c0, c1, c2, c3, c4].drop_last() =~= seq![c0, c1, c2, c3]);
    assert(seq![c0, c1, c2, c3].drop_last() =~= seq![c0, c1, c2]);
    assert(seq![c0, c1, c2].drop_last() =~= seq![c0, c1]);
    assert(seq![c0, c1].drop_last() =~= seq![c0]);
    assert(seq![c0].drop_last() =~= Seq::<u8>::empty());
    assert(zs.drop_last() =~= seq![0u8, 0u8, 0u8, 0u8, 0u8]);
    assert(seq![0u8, 0u8, 0u8, 0u8, 0u8].drop_last() =~= seq![0u8, 0u8, 0u8, 0u8]);
    assert(seq![0u8, 0u8, 0u8, 0u8].drop_last() =~= seq![0u8, 0u8, 0u8]);
    assert(seq![0u8, 0u8, 0u8].drop_last() =~= seq![0u8, 0u8]);
    assert(seq![0u8, 0u8].drop_last() =~= seq![0u8]);
    assert(seq![0u8].drop_last() =~= Seq::<u8>::empty());
    assert(polymod_from(s, cs) == p6);
    assert(polymod_from(s, zs) == q6);
}

/// The appended checksum always verifies: over the expanded prefix, the
/// data and the checksum itself, the polynomial comes to one.
pub proof fn lemma_checksum_valid(vals: Seq<u8>)
    ensures
        polymod_from(1, vals + checksum_of_values(vals)) == 1,
{
    let zs = seq![0u8, 0u8, 0u8, 0u8, 0u8, 0u8];
    let s = polymod_from(1, vals);
    let q = polymod_from(1, vals + zs);
    let pm = q ^ 1;
    let cks = checksum_of_values(vals);
    lemma_polymod_append(1, vals, zs);
    lemma_polymod_append(1, vals, cks);
    lemma_polymod_bound(1, vals + zs);
    assert(((pm >> 25) & 31) < 32 && ((pm >> 20) & 31) < 32 && ((pm >> 15) & 31) < 32 && ((pm
        >> 10) & 31) < 32 && ((pm >> 5) & 31) < 32 && (pm & 31) < 32) by (bit_vector);
    lemma_polymod_six(
        s,
        ((pm >> 25) & 31) as u8,
        ((pm >> 20) & 31) as u8,
        ((pm >> 15) & 31) as u8,
        ((pm >> 10) & 31) as u8,
        ((pm >> 5) & 31) as u8,
        (pm & 31) as u8,
    );
    assert(cks =~= seq![
        ((pm >> 25) & 31) as u8,
        ((pm >> 20) & 31) as u8,
        ((pm >> 15) & 31) as u8,
        ((pm >> 10) & 31) as u8,
        ((pm >> 5) & 31) as u8,
        (pm & 31) as u8,
    ]);
    let spread = (((((pm >> 25) & 31) as u8) as u32) << 25) ^ (((((pm >> 20) & 31) as u8) as u32)
        << 20) ^ (((((pm >> 15) & 31) as u8) as u32) << 15) ^ (((((pm >> 10) & 31) as u8) as u32)
        << 10) ^ (((((pm >> 5) & 31) as u8) as u32) << 5) ^ (((pm & 31) as u8) as u32);
    assert(q < 0x40000000);
    assert(q ^ spread == 1 && spread == pm) by (bit_vector)
        requires
            q < 0x40000000 && pm == q ^ 1 && spread == ((((((pm >> 25) & 31) as u8) as u32) << 25)
                ^ (((((pm >> 20) & 31) as u8) as u32) << 20) ^ (((((pm >> 15) & 31) as u8) as u32)
                << 15) ^ (((((pm >> 10) & 31) as u8) as u32) << 10) ^ (((((pm >> 5)
                & 31) as u8) as u32) << 5) ^ (((pm & 31) as u8) as u32)),
    ;
    assert(polymod_from(1, vals + cks) == polymod_from(s, cks));
    assert(polymod_from(s, cks) == polymod_from(s, zs) ^ spread);
    assert(polymod_from(s, zs) == q);
}

/// The characters of a sequence of 5-bit values.
pub open spec fn charset_map(values: Seq<u8>) -> Seq<u8> {
    values.map_values(|v: u8| bech32_charset()[v as int])
}

/// The full byte string of a version-0 witness address: prefix,
/// separator, then data and checksum in address characters.
pub open spec fn p2wpkh_address_bytes(hrp: Seq<u8>, program: Seq<u8>) -> Seq<u8> {
    let data = seq![0u8] + program_groups(program);
    hrp + seq![49u8] + charset_map(data + checksum_of_values(hrp_expand(hrp) + data))
}

/// Encodes a 20-byte witness program as a version-0 address for the
/// given network.
#[verifier::loop_isolation(false)]
pub fn encode_p2wpkh(network: Network, program: &Vec<u8>) -> (r: Vec<u8>)
    requires
        program@.len() == 20,
    ensures
        r@ == p2wpkh_address_bytes(hrp_bytes(network), program@),
        forall|i: int| 0 <= i < r@.len() ==> r@[i] < 0x80,
{
    let ghost spec_data = seq![0u8] + program_groups(program@);
    let mut data: Vec<u8> = Vec::new();
    data.push(0);
    let groups = program_groups_exec(program);
    data.extend_from_slice(groups.as_slice());
    proof {
        assert(data@ =~= spec_data);
    }
    let hrp = hrp_vec(network);
    let mut vals = hrp_expand_exec(&hrp);
    vals.extend_from_slice(data.as_slice());
    proof {
        assert(vals@ =~= hrp_expand(hrp_bytes(network)) + spec_data);
    }
    let checksum = checksum_exec(&vals);
    let mut full_data = data;
    full_data.extend_from_slice(checksum.as_slice());
    proof {
        assert(full_data@ =~= spec_data + checksum_of_values(
            hrp_expand(hrp_bytes(network)) + spec_data,
        ));
    }

    let mut out: Vec<u8> = hrp;
    out.push(49u8);
    let ghost prefix = out@;
    let mut i: usize = 0;
    while i < full_data.len()
        invariant
            i <= full_data@.len(),
            forall|m: int| 0 <= m < full_data@.len() ==> full_data@[m] < 32,
            out@ =~= prefix + charset_map(full_data@).take(i as int),
            forall|m: int| 0 <= m < out@.len() ==> out@[m] < 0x80,
        decreases full_data@.len() - i,
    {
        let cb = charset_byte(full_data[i]);
        out.push(cb);
        proof {
            assert(out@ =~= prefix + charset_map(full_data@).take(i + 1));
        }
        i = i + 1;
    }
    proof {
        assert(charset_map(full_data@).take(full_data@.len() as int) =~= charset_map(full_data@));
        assert(out@ =~= p2wpkh_address_bytes(hrp_bytes(network), program@));
    }
    out
}

/// The regrouped program is four chunks of eight values.
proof fn lemma_program_groups_shape(p: Seq<u8>)
    requires
        p.len() == 20,
    ensures
        program_groups(p) =~= group5_of(p[0], p[1], p[2], p[3], p[4]) + group5_of(
            p[5],
            p[6],
            p[7],
            p[8],
            p[9],
        ) + group5_of(p[10], p[11], p[12], p[13], p[14]) + group5_of(
            p[15],
            p[16],
            p[17],
            p[18],
            p[19],
        ),
        program_groups(p).len() == 32,
        forall|i: int| 0 <= i < 32 ==> program_groups(p)[i] < 32,
{
    reveal_with_fuel(groups_upto, 6);
    assert(groups_upto(p, 0) =~= Seq::<u8>::empty());
    lemma_group5_bounds(p[0], p[1], p[2], p[3], p[4]);
    lemma_group5_bounds(p[5], p[6], p[7], p[8], p[9]);
    lemma_group5_bounds(p[10], p[11], p[12], p[13], p[14]);
    lemma_group5_bounds(p[15], p[16], p[17], p[18], p[19]);
}

/// The checksum values all fit five bits.
proof fn lemma_checksum_values_bounds(vals: Seq<u8>)
    ensures
        checksum_of_values(vals).len() == 6,
        forall|i: int| 0 <= i < 6 ==> checksum_of_values(vals)[i] < 32,
{
    let pm = polymod_from(1, vals + seq![0u8, 0u8, 0u8, 0u8, 0u8, 0u8]) ^ 1;
    assert(((pm >> 25) & 31) < 32 && ((pm >> 20) & 31) < 32 && ((pm >> 15) & 31) < 32 && ((pm
        >> 10) & 31) < 32 && ((pm >> 5) & 31) < 32 && (pm & 31) < 32) by (bit_vector);
}

/// Ungrouping the regrouped forty bits of five bytes recovers the bytes.
proof fn lemma_regroup_round_trip(b0: u8, b1: u8, b2: u8, b3: u8, b4: u8)
    ensures
        ({
            let g = group5_of(b0, b1, b2, b3, b4);
            let v0 = g[0];
            let v1 = g[1];
            let v2 = g[2];
            let v3 = g[3];
            let v4 = g[4];
            let v5 = g[5];
            let v6 = g[6];
            let v7 = g[7];
            ((v0 << 3) | (v1 >> 2)) == b0 && (((v1 & 3) << 6) | (v2 << 1) | (v3 >> 4)) == b1 && ((
            (v3 & 15) << 4) | (v4 >> 1)) == b2 && (((v4 & 1) << 7) | (v5 << 2) | (v6 >> 3)) == b3
                && (((v6 & 7) << 5) | v7) == b4
        }),
{
    let g = group5_of(b0, b1, b2, b3, b4);
    let v0 = g[0];
    let v1 = g[1];
    let v2 = g[2];
    let v3 = g[3];
    let v4 = g[4];
    let v5 = g[5];
    let v6 = g[6];
    let v7 = g[7];
    assert(((v0 << 3) | (v1 >> 2)) == b0 && (((v1 & 3) << 6) | (v2 << 1) | (v3 >> 4)) == b1 && (((
    v3 & 15) << 4) | (v4 >> 1)) == b2 && (((v4 & 1) << 7) | (v5 << 2) | (v6 >> 3)) == b3 && (((v6
        & 7) << 5) | v7) == b4) by (bit_vector)
        requires
            v0 == (b0 >> 3) && v1 == (((b0 & 7) << 2) | (b1 >> 6)) && v2 == ((b1 >> 1) & 31) && v3
                == (((b1 & 1) << 4) | (b2 >> 4)) && v4 == (((b2 & 15) << 1) | (b3 >> 7)) && v5 == ((
            b3 >> 2) & 31) && v6 == (((b3 & 3) << 3) | (b4 >> 5)) && v7 == (b4 & 31),
    ;
}

/// Five bytes recovered from eight 5-bit values at chunk `c` of the data
/// part (the version value at index zero is skipped).
pub open spec fn ungroup5_at(v: Seq<u8>, c: int) -> Seq<u8> {
    let v0 = v[1 + 8 * c];
    let v1 = v[1 + 8 * c + 1];
    let v2 = v[1 + 8 * c + 2];
    let v3 = v[1 + 8 * c + 3];
    let v4 = v[1 + 8 * c + 4];
    let v5 = v[1 + 8 * c + 5];
    let v6 = v[1 + 8 * c + 6];
    let v7 = v[1 + 8 * c + 7];
    seq![
        (v0 << 3) | (v1 >> 2),
        ((v1 & 3) << 6) | (v2 << 1) | (v3 >> 4),
        ((v3 & 15) << 4) | (v4 >> 1),
        ((v4 & 1) << 7) | (v5 << 2) | (v6 >> 3),
        ((v6 & 7) << 5) | v7,
    ]
}

/// The first `c` chunks of the program recovered from the data values.
pub open spec fn ungroups_upto(v: Seq<u8>, c: int) -> Seq<u8>
    decreases c,
{
    if c <= 0 {
        Seq::empty()
    } else {
        ungroups_upto(v, c - 1) + ungroup5_at(v, c - 1)
    }
}

/// What decoding a version-0 witness address comes to, for every byte
/// string: the network prefix, the separator, characters in the alphabet,
/// a verifying checksum and version zero, or nothing.
pub open spec fn p2wpkh_decode(s: Seq<u8>, network: Network) -> Option<Seq<u8>> {
    let hrp = hrp_bytes(network);
    let hl = hrp.len() as int;
    if s.len() != hl + 40 {
        None
    } else if s.take(hl) != hrp {
        None
    } else if s[hl] != 49 {
        None
    } else {
        let vals = Seq::new(39, |i: int| char_value(s[hl + 1 + i]));
        if exists|i: int| 0 <= i < 39 && vals[i] >= 32 {
            None
        } else if polymod_from(1, hrp_expand(hrp) + vals) != 1 {
            None
        } else if vals[0] != 0 {
            None
        } else {
            Some(ungroups_upto(vals, 4))
        }
    }
}

/// Decodes a version-0 witness address for the given network back to its
/// 20-byte program, or nothing on any malformed input.
#[verifier::loop_isolation(false)]
#[verifier::rlimit(100)]
pub fn decode_p2wpkh(s: &Vec<u8>, network: Network) -> (r: Option<Vec<u8>>)
    ensures
        match r {
            Some(p) => p2wpkh_decode(s@, network) == Some(p@) && p@.len() == 20,
            None => p2wpkh_decode(s@, network) is None,
        },
{
    let hrp = hrp_vec(network);
    let hl: usize = hrp.len();
    if s.len() != hl + 40 {
        return None;
    }
    let mut i: usize = 0;
    while i < hl
        invariant
            i <= hl,
            forall|m: int| 0 <= m < i ==> s@[m] == hrp_bytes(network)[m],
        decreases hl - i,
    {
        if s[i] != hrp[i] {
            proof {
                assert(s@.take(hl as int)[i as int] != hrp_bytes(network)[i as int]);
            }
            return None;
        }
        i = i + 1;
    }
    proof {
        assert(s@.take(hl as int) =~= hrp_bytes(network));
    }
    if s[hl] != 49 {
        return None;
    }
    let ghost spec_vals = Seq::new(39, |j: int| char_value(s@[hl + 1 + j]));
    let mut vals: Vec<u8> = Vec::new();
    let mut j: usize = 0;
    while j < 39
        invariant
            j <= 39,
            vals@ =~= spec_vals.take(j as int),
            forall|m: int| 0 <= m < j ==> spec_vals[m] < 32,
        decreases 39 - j,
    {
        let v = char_value_exec(s[hl + 1 + j]);
        if v >= 32 {
            proof {
                assert(spec_vals[j as int] >= 32);
            }
            return None;
        }
        vals.push(v);
        proof {
            assert(vals@ =~= spec_vals.take(j + 1));
        }
        j = j + 1;
    }
    proof {
        assert(vals@ =~= spec_vals);
    }
    let exp = hrp_expand_exec(&hrp);
    let mut all = exp;
    all.extend_from_slice(vals.as_slice());
    proof {
        assert(all@ =~= hrp_expand(hrp_bytes(network)) + spec_vals);
    }
    let pm = polymod_exec(&all, 1);
    if pm != 1 {
        return None;
    }
    if vals[0] != 0 {
        return None;
    }
    let mut prog: Vec<u8> = Vec::new();
    let mut c: usize = 0;
    while c < 4
        invariant
            c <= 4,
            vals@ == spec_vals,
            vals@.len() == 39,
            prog@ =~= ungroups_upto(spec_vals, c as int),
            prog@.len() == 5 * c,
        decreases 4 - c,
    {
        let v0 = vals[1 + 8 * c];
        let v1 = vals[1 + 8 * c + 1];
        let v2 = vals[1 + 8 * c + 2];
        let v3 = vals[1 + 8 * c + 3];
        let v4 = vals[1 + 8 * c + 4];
        let v5 = vals[1 + 8 * c + 5];
        let v6 = vals[1 + 8 * c + 6];
        let v7 = vals[1 + 8 * c + 7];
        prog.push((v0 << 3) | (v1 >> 2));
        prog.push(((v1 & 3) << 6) | (v2 << 1) | (v3 >> 4));
        prog.push(((v3 & 15) << 4) | (v4 >> 1));
        prog.push(((v4 & 1) << 7) | (v5 << 2) | (v6 >> 3));
        prog.push(((v6 & 7) << 5) | v7);
        proof {
            assert(prog@ =~= ungroups_upto(spec_vals, c as int) + ungroup5_at(
                spec_vals,
                c as int,
            ));
            assert(prog@ =~= ungroups_upto(spec_vals, c + 1));
        }
        c = c + 1;
    }
    proof {
        let hli = hl as int;
        assert(Seq::new(39, |i: int| char_value(s@[hrp_bytes(network).len() as int + 1 + i]))
            =~= spec_vals);
        assert(s@.take(hli) == hrp_bytes(network));
        assert(s@[hli] == 49);
        assert(forall|m: int| 0 <= m < 39 ==> spec_vals[m] < 32);
        assert(polymod_from(1, hrp_expand(hrp_bytes(network)) + spec_vals) == 1);
        assert(spec_vals[0] == 0);
        assert(p2wpkh_decode(s@, network) == Some(ungroups_upto(spec_vals, 4)));
        assert(prog@ == ungroups_upto(spec_vals, 4));
        assert(prog@.len() == 20);
    }
    Some(prog)
}

/// A derived version-0 witness address independently validates: decoding
/// the encoding of any 20-byte program — prefix and separator checks,
/// alphabet membership, checksum verification, version check and
/// regrouping included — recovers exactly the program.
#[verifier::rlimit(100)]
pub proof fn lemma_p2wpkh_round_trip(network: Network, program: Seq<u8>)
    requires
        program.len() == 20,
    ensures
        p2wpkh_decode(p2wpkh_address_bytes(hrp_bytes(network), program), network) == Some(program),
{
    let hrp = hrp_bytes(network);
    let hl = hrp.len() as int;
    let data = seq![0u8] + program_groups(program);
    let cks = checksum_of_values(hrp_expand(hrp) + data);
    let full = data + cks;
    let s = p2wpkh_address_bytes(hrp, program);
    lemma_program_groups_shape(program);
    lemma_checksum_values_bounds(hrp_expand(hrp) + data);
    assert(forall|i: int| 0 <= i < 39 ==> #[trigger] full[i] < 32) by {
        assert(forall|i: int| 0 <= i < 33 ==> #[trigger] data[i] < 32);
    }
    assert(s =~= hrp + seq![49u8] + charset_map(full));
    assert(charset_map(full).len() == 39);
    assert(s.len() == hl + 40);
    assert(s.take(hl) =~= hrp);
    assert(s[hl] == 49);
    let vals = Seq::new(39, |i: int| char_value(s[hl + 1 + i]));
    assert forall|i: int| 0 <= i < 39 implies #[trigger] vals[i] == full[i] by {
        assert(s[hl + 1 + i] == charset_map(full)[i]);
        assert(charset_map(full)[i] == bech32_charset()[full[i] as int]);
        lemma_charset_round_trip(full[i]);
    }
    assert(vals =~= full);
    assert(!(exists|i: int| 0 <= i < 39 && vals[i] >= 32));
    lemma_checksum_valid(hrp_expand(hrp) + data);
    assert(hrp_expand(hrp) + vals =~= (hrp_expand(hrp) + data) + cks);
    assert(polymod_from(1, hrp_expand(hrp) + vals) == 1);
    assert(vals[0] == 0);
    // Regrouping: each recovered chunk is the original five bytes.
    reveal_with_fuel(ungroups_upto, 6);
    assert(ungroups_upto(vals, 0) =~= Seq::<u8>::empty());
    assert forall|c: int| 0 <= c < 4 implies ungroup5_at(vals, c) =~= program.subrange(
        5 * c,
        5 * c + 5,
    ) by {
        let b0 = program[5 * c];
        let b1 = program[5 * c + 1];
        let b2 = program[5 * c + 2];
        let b3 = program[5 * c + 3];
        let b4 = program[5 * c + 4];
        let g = group5_of(b0, b1, b2, b3, b4);
        assert forall|k: int| 0 <= k < 8 implies vals[1 + 8 * c + k] == g[k] by {
            assert(data[1 + 8 * c + k] == program_groups(program)[8 * c + k]);
            assert(program_groups(program)[8 * c + k] == g[k]);
        }
        lemma_regroup_round_trip(b0, b1, b2, b3, b4);
    }
    assert(ungroups_upto(vals, 4) =~= program);
    assert(p2wpkh_decode(s, network) == Some(ungroups_upto(vals, 4)));
}

} // verus!
