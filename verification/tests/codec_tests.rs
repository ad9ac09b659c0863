use basic_bitcoin::codec::{der_to_sec1, sec1_to_compact, sec1_to_der};

fn sig_with(r0: u8, s0: u8) -> Vec<u8> {
    let mut sig = vec![0u8; 64];
    sig[0] = r0;
    for i in 1..32 {
        sig[i] = 0x11;
    }
    sig[32] = s0;
    for i in 33..64 {
        sig[i] = 0x22;
    }
    sig
}

#[test]
fn der_encoding_without_padding_is_exact() {
    let sig = sig_with(0x7f, 0x33);
    let der = sec1_to_der(sig.clone());
    let mut expected = vec![0x30, 68, 0x02, 32];
    expected.extend_from_slice(&sig[..32]);
    expected.push(0x02);
    expected.push(32);
    expected.extend_from_slice(&sig[32..]);
    assert_eq!(der, expected);
    assert_eq!(der.len(), 70);
}

#[test]
fn der_encoding_pads_negative_r_with_zero_byte() {
    let plain = sec1_to_der(sig_with(0x7f, 0x33));
    let sig = sig_with(0x80, 0x33);
    let der = sec1_to_der(sig.clone());
    // One byte longer than the no-padding form, with a zero before r.
    assert_eq!(der.len(), plain.len() + 1);
    assert_eq!(der[0], 0x30);
    assert_eq!(der[3], 33);
    assert_eq!(der[4], 0x00);
    assert_eq!(der[5], 0x80);
}

#[test]
fn der_round_trip_recovers_raw_scalars() {
    for (r0, s0) in [(0x7f, 0x33), (0x80, 0x33), (0x11, 0xc0), (0xff, 0xff)] {
        let sig = sig_with(r0, s0);
        let der = sec1_to_der(sig.clone());
        let back = der_to_sec1(&der).expect("round trip must decode");
        assert_eq!(back, sig);
    }
}

#[test]
fn der_decode_rejects_wrong_shapes() {
    assert!(der_to_sec1(&vec![]).is_none());
    assert!(der_to_sec1(&vec![0x30, 1, 2, 3, 4, 5]).is_none());
    let mut der = sec1_to_der(sig_with(0x7f, 0x33));
    der[0] = 0x31;
    assert!(der_to_sec1(&der).is_none());
    // Non-minimal padding: a zero byte before a scalar without its top
    // bit set.
    let mut bad = vec![0x30, 69, 0x02, 33, 0x00];
    bad.extend_from_slice(&[0x11; 32]);
    bad.push(0x02);
    bad.push(32);
    bad.extend_from_slice(&[0x22; 32]);
    assert!(der_to_sec1(&bad).is_none());
}

#[test]
fn compact_form_keeps_raw_bytes_and_appends_sighash_type() {
    let sig = sig_with(0x80, 0x33);
    let compact = sec1_to_compact(&sig, 1);
    assert_eq!(compact.len(), 65);
    assert_eq!(&compact[..64], &sig[..]);
    assert_eq!(compact[64], 1);
}
