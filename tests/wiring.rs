use eddsa_circuit::{
    bind_signature, bits_in_le, bytes_to_bits, hash_input_bits, make_verify_circuits,
    point_decompress, Connection, EddsaTargets, WireRef, POINT_BYTES, SIGNATURE_BYTES,
};

fn virtuals(start: usize, n: usize) -> Vec<WireRef> {
    (start..start + n).map(|index| WireRef::Virtual { index }).collect()
}

fn index_of(w: WireRef) -> usize {
    match w {
        WireRef::Virtual { index } => index,
        WireRef::Wire { .. } => panic!("expected a virtual wire"),
    }
}

#[test]
fn bits_in_le_swaps_bytes_and_keeps_bit_order() {
    let input: Vec<u32> = (0..24).collect();
    let expected: Vec<u32> = (16..24).chain(8..16).chain(0..8).collect();
    assert_eq!(bits_in_le(input), expected);
}

#[test]
fn bits_in_le_single_byte_is_unchanged() {
    let input = vec![true, false, false, true, true, true, false, false];
    assert_eq!(bits_in_le(input.clone()), input);
}

#[test]
fn bits_in_le_empty() {
    let input: Vec<u8> = Vec::new();
    assert!(bits_in_le(input).is_empty());
}

#[test]
fn bits_in_le_twice_is_identity() {
    let input: Vec<u16> = (0..256).map(|i| (i * 37 % 101) as u16).collect();
    assert_eq!(bits_in_le(bits_in_le(input.clone())), input);
}

#[test]
fn hash_input_bits_for_a_32_byte_message() {
    assert_eq!(hash_input_bits(32), Some(768));
    assert_eq!(hash_input_bits(0), Some(512));
}

#[test]
fn hash_input_bits_overflow() {
    assert_eq!(hash_input_bits(usize::MAX), None);
    let largest = (usize::MAX - 512) / 8;
    assert_eq!(hash_input_bits(largest), Some(largest * 8 + 512));
    assert_eq!(hash_input_bits(largest + 1), None);
}

#[test]
fn verify_circuit_wiring_for_a_32_byte_message() {
    let msg_len = 32;
    let n = hash_input_bits(msg_len).unwrap();
    let hash_input = virtuals(0, n);
    let digest = virtuals(n, 512);
    let sig = virtuals(n + 512, 512);
    let pk = virtuals(n + 1024, 256);
    let w = make_verify_circuits(msg_len, &hash_input, &digest, &sig, &pk);

    assert_eq!(w.targets.msg, hash_input[512..].to_vec());
    assert_eq!(w.targets.msg.len(), 256);
    assert_eq!(w.targets.sig, sig);
    assert_eq!(w.targets.pk, pk);

    assert_eq!(w.connections.len(), 512);
    for i in 0..256 {
        assert_eq!(w.connections[i], Connection { left: hash_input[i], right: sig[i] });
        assert_eq!(
            w.connections[256 + i],
            Connection { left: hash_input[256 + i], right: pk[i] }
        );
    }

    assert_eq!(w.digest_le, bits_in_le(digest.clone()));
    assert_eq!(w.s_le, bits_in_le(sig[256..].to_vec()));
    assert_eq!(w.r_le, bits_in_le(sig[..256].to_vec()));
    assert_eq!(w.pk_le, bits_in_le(pk.clone()));
    // The last byte of `s` comes first in little-endian order.
    assert_eq!(index_of(w.s_le[0]), n + 512 + 504);
    assert_eq!(index_of(w.r_le[7]), n + 512 + 255);
}

#[test]
fn verify_circuit_wiring_for_an_empty_message() {
    let hash_input = virtuals(0, 512);
    let digest = virtuals(512, 512);
    let sig = virtuals(1024, 512);
    let pk = virtuals(1536, 256);
    let w = make_verify_circuits(0, &hash_input, &digest, &sig, &pk);
    assert!(w.targets.msg.is_empty());
    assert_eq!(w.connections.len(), 512);
}

#[test]
fn each_key_and_r_bit_has_one_source() {
    let hash_input = virtuals(0, 520);
    let digest = virtuals(520, 512);
    let sig = virtuals(1032, 512);
    let pk = virtuals(1544, 256);
    let w = make_verify_circuits(1, &hash_input, &digest, &sig, &pk);
    let mut rights: Vec<usize> = w.connections.iter().map(|c| index_of(c.right)).collect();
    rights.sort();
    rights.dedup();
    assert_eq!(rights.len(), 512);
}

#[test]
fn point_decompress_ties_every_bit() {
    let pv = virtuals(0, 256);
    let recompressed: Vec<WireRef> =
        (0..256).map(|i| WireRef::Wire { row: i / 80, column: i % 80 }).collect();
    let cs = point_decompress(&pv, &recompressed);
    assert_eq!(cs.len(), 256);
    for i in 0..256 {
        assert_eq!(cs[i], Connection { left: pv[i], right: recompressed[i] });
    }
}

#[test]
fn bytes_to_bits_most_significant_first() {
    let bits = bytes_to_bits(&[0x80, 0x01, 0xa5]);
    let expected = vec![
        true, false, false, false, false, false, false, false, //
        false, false, false, false, false, false, false, true, //
        true, false, true, false, false, true, false, true,
    ];
    assert_eq!(bits, expected);
    assert!(bytes_to_bits(&[]).is_empty());
}

#[test]
fn bind_signature_gives_each_target_its_bit() {
    let targets = EddsaTargets { msg: virtuals(0, 16), sig: virtuals(16, 512), pk: virtuals(528, 256) };
    let msg = [0xffu8, 0x00];
    let mut sig = [0u8; SIGNATURE_BYTES];
    sig[0] = 0x40;
    sig[63] = 0x01;
    let mut pk = [0u8; POINT_BYTES];
    pk[31] = 0x80;
    let binds = bind_signature(&targets, &msg, &sig, &pk);
    assert_eq!(binds.len(), 16 + 512 + 256);
    for (i, &(w, v)) in binds.iter().enumerate() {
        assert_eq!(w, WireRef::Virtual { index: i });
        let expected = i < 8 || i == 16 + 1 || i == 16 + 511 || i == 528 + 248;
        assert_eq!(v, expected, "bit {}", i);
    }
}
