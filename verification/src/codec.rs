//! Signature codec: a raw two-scalar (SEC1-style) ECDSA signature becomes
//! either a DER `SEQUENCE` of two `INTEGER`s (legacy inputs) or the raw
//! 64-byte compact form with a trailing sighash-type byte (segwit inputs).
use vstd::prelude::*;

verus! {

/// A raw scalar encoded as the content bytes of a DER `INTEGER`: a zero byte
/// is prepended when the scalar's top bit is set, so the value cannot be
/// read as negative; no other leading byte is added.
pub open spec fn der_int_of(scalar: Seq<u8>) -> Seq<u8> {
    if scalar.len() > 0 && scalar[0] >= 0x80 {
        seq![0u8] + scalar
    } else {
        scalar
    }
}

/// The DER encoding of a 64-byte raw signature: `SEQUENCE { INTEGER r, INTEGER s }`
/// where r is the first 32 bytes and s the last 32.
pub open spec fn sec1_to_der_of(sig: Seq<u8>) -> Seq<u8> {
    let r = der_int_of(sig.take(32));
    let s = der_int_of(sig.skip(32));
    seq![0x30u8, (4 + r.len() + s.len()) as u8, 0x02u8, r.len() as u8] + r + seq![
        0x02u8,
        s.len() as u8,
    ] + s
}

/// Copies `src[from..to]` into a fresh vector.
fn copy_range(src: &Vec<u8>, from: usize, to: usize) -> (r: Vec<u8>)
    requires
        from <= to <= src@.len(),
    ensures
        r@ == src@.subrange(from as int, to as int),
{
    let mut out: Vec<u8> = Vec::new();
    let mut i: usize = from;
    while i < to
        invariant
            from <= i <= to <= src@.len(),
            out@ == src@.subrange(from as int, i as int),
        decreases to - i,
    {
        out.push(src[i]);
        proof {
            assert(out@ =~= src@.subrange(from as int, i + 1));
        }
        i = i + 1;
    }
    out
}

/// One scalar half as DER `INTEGER` content bytes: prepend a zero byte when
/// the top bit of the leading byte is set.
fn der_int(scalar: &Vec<u8>) -> (r: Vec<u8>)
    requires
        scalar@.len() == 32,
    ensures
        r@ == der_int_of(scalar@),
{
    let mut out: Vec<u8> = Vec::new();
    let lead: u8 = scalar[0];
    if lead & 0x80 != 0 {
        assert(lead >= 0x80) by (bit_vector)
            requires
                lead & 0x80 != 0,
        ;
        out.push(0x00);
    } else {
        assert(lead < 0x80) by (bit_vector)
            requires
                lead & 0x80 == 0,
        ;
    }
    out.extend_from_slice(scalar.as_slice());
    proof {
        assert(out@ =~= der_int_of(scalar@));
    }
    out
}

/// Converts a raw 64-byte SEC1 ECDSA signature to the DER form used in
/// legacy unlocking scripts.
pub fn sec1_to_der(sec1_signature: Vec<u8>) -> (r: Vec<u8>)
    requires
        sec1_signature@.len() == 64,
    ensures
        r@ == sec1_to_der_of(sec1_signature@),
{
    let r_raw = copy_range(&sec1_signature, 0, 32);
    let s_raw = copy_range(&sec1_signature, 32, 64);
    let r_enc = der_int(&r_raw);
    let s_enc = der_int(&s_raw);
    proof {
        assert(r_raw@ == sec1_signature@.take(32));
        assert(s_raw@ == sec1_signature@.skip(32));
    }
    let r_len: usize = r_enc.len();
    let s_len: usize = s_enc.len();
    let mut out: Vec<u8> = Vec::new();
    out.push(0x30);
    out.push((4 + r_len + s_len) as u8);
    out.push(0x02);
    out.push(r_len as u8);
    out.extend_from_slice(r_enc.as_slice());
    out.push(0x02);
    out.push(s_len as u8);
    out.extend_from_slice(s_enc.as_slice());
    proof {
        assert(out@ =~= sec1_to_der_of(sec1_signature@));
    }
    out
}

/// The compact segwit witness form: the raw 64 bytes followed by the
/// sighash-type byte.
pub open spec fn sec1_to_compact_of(sig: Seq<u8>, sighash_byte: u8) -> Seq<u8> {
    sig + seq![sighash_byte]
}

/// Converts a raw 64-byte SEC1 signature to the compact witness element:
/// the raw bytes unchanged, with the sighash-type byte appended.
pub fn sec1_to_compact(sec1_signature: &Vec<u8>, sighash_byte: u8) -> (r: Vec<u8>)
    requires
        sec1_signature@.len() == 64,
    ensures
        r@ == sec1_to_compact_of(sec1_signature@, sighash_byte),
{
    let mut out: Vec<u8> = Vec::new();
    out.extend_from_slice(sec1_signature.as_slice());
    out.push(sighash_byte);
    proof {
        assert(out@ =~= sec1_to_compact_of(sec1_signature@, sighash_byte));
    }
    out
}

/// The content bytes of a well-formed DER `INTEGER` holding a 32-byte
/// scalar, decoded back to the raw scalar: a single leading zero byte in a
/// 33-byte content is padding and is removed.
pub open spec fn der_int_decode(content: Seq<u8>) -> Option<Seq<u8>> {
    if content.len() == 32 && (content.len() == 0 || content[0] < 0x80) {
        Some(content)
    } else if content.len() == 33 && content[0] == 0 && content[1] >= 0x80 {
        Some(content.skip(1))
    } else {
        None
    }
}

/// Decodes a DER `SEQUENCE { INTEGER r, INTEGER s }` back to the raw
/// 64-byte signature, per the minimal-encoding rules used by the encoder.
pub open spec fn der_to_sec1_of(der: Seq<u8>) -> Option<Seq<u8>> {
    if der.len() < 6 {
        None
    } else if der[0] != 0x30 || der[1] != der.len() - 2 || der[2] != 0x02 {
        None
    } else {
        let r_len = der[3] as int;
        if r_len < 1 || 4 + r_len + 2 > der.len() {
            None
        } else if der[4 + r_len] != 0x02 || der[5 + r_len] != der.len() - 6 - r_len {
            None
        } else {
            let s_len = der.len() - 6 - r_len;
            let r = der_int_decode(der.subrange(4, 4 + r_len));
            let s = der_int_decode(der.subrange(6 + r_len, der.len() as int));
            if r is Some && s is Some {
                Some(r.unwrap() + s.unwrap())
            } else {
                None
            }
        }
    }
}

/// Decodes a DER-encoded signature back to its raw 64-byte form, returning
/// `None` on any shape that the encoder cannot produce.
pub fn der_to_sec1(der: &Vec<u8>) -> (r: Option<Vec<u8>>)
    ensures
        match r {
            Some(sig) => der_to_sec1_of(der@) == Some(sig@),
            None => der_to_sec1_of(der@) is None,
        },
{
    let n: usize = der.len();
    if n < 6 {
        return None;
    }
    if der[0] != 0x30 || der[1] as usize != n - 2 || der[2] != 0x02 {
        return None;
    }
    let r_len: usize = der[3] as usize;
    if r_len < 1 || 4 + r_len + 2 > n {
        return None;
    }
    if der[4 + r_len] != 0x02 || der[5 + r_len] as usize != n - 6 - r_len {
        return None;
    }
    let r_content = copy_range(der, 4, 4 + r_len);
    let s_content = copy_range(der, 6 + r_len, n);
    let r_scalar = match der_int_decode_exec(&r_content) {
        Some(v) => v,
        None => {
            return None;
        },
    };
    let s_scalar = match der_int_decode_exec(&s_content) {
        Some(v) => v,
        None => {
            return None;
        },
    };
    let mut out = r_scalar;
    out.extend_from_slice(s_scalar.as_slice());
    Some(out)
}

/// Decodes one DER `INTEGER` content back to the raw 32-byte scalar.
fn der_int_decode_exec(content: &Vec<u8>) -> (r: Option<Vec<u8>>)
    ensures
        match r {
            Some(v) => der_int_decode(content@) == Some(v@),
            None => der_int_decode(content@) is None,
        },
{
    let n: usize = content.len();
    if n == 32 && content[0] < 0x80 {
        Some(copy_range(content, 0, 32))
    } else if n == 33 && content[0] == 0 && content[1] >= 0x80 {
        let v = copy_range(content, 1, 33);
        proof {
            assert(v@ =~= content@.skip(1));
        }
        Some(v)
    } else {
        None
    }
}

/// DER round trip: decoding the encoding of any raw 64-byte signature
/// recovers the signature, zero-byte padding rule included.
pub proof fn lemma_der_round_trip(sig: Seq<u8>)
    requires
        sig.len() == 64,
    ensures
        der_to_sec1_of(sec1_to_der_of(sig)) == Some(sig),
{
    let r = der_int_of(sig.take(32));
    let s = der_int_of(sig.skip(32));
    let der = sec1_to_der_of(sig);
    assert(32 <= r.len() <= 33 && 32 <= s.len() <= 33);
    assert(der.len() == 6 + r.len() + s.len());
    assert(der[0] == 0x30 && der[2] == 0x02);
    assert(der[1] == der.len() - 2);
    assert(der[3] == r.len() as u8);
    assert(der[4 + r.len() as int] == 0x02);
    assert(der[5 + r.len() as int] == s.len() as u8);
    assert(der.subrange(4, 4 + r.len() as int) =~= r);
    assert(der.subrange(6 + r.len() as int, der.len() as int) =~= s);
    assert(der_int_decode(r) == Some(sig.take(32)));
    assert(der_int_decode(s) == Some(sig.skip(32)));
    assert(sig.take(32) + sig.skip(32) =~= sig);
}

/// A raw signature whose r scalar has its top bit set gains a leading zero
/// byte before r, and the whole DER blob is one byte longer than the
/// no-padding form.
pub proof fn lemma_der_negative_r_padding(sig: Seq<u8>)
    requires
        sig.len() == 64,
        sig[0] >= 0x80,
    ensures
        sec1_to_der_of(sig)[4] == 0,
        sec1_to_der_of(sig)[5] == sig[0],
        sec1_to_der_of(sig).len() == 71 + der_int_of(sig.skip(32)).len() - 32,
{
    let r = der_int_of(sig.take(32));
    assert(r == seq![0u8] + sig.take(32));
    assert(sec1_to_der_of(sig)[4] == r[0]);
    assert(sec1_to_der_of(sig)[5] == r[1]);
}

} // verus!
