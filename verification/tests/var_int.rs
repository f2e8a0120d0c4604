use txoutset::{Error, VarInt};

#[test]
fn var_int_round_trips() {
    let cases = vec![
        (0, vec![0x00]),
        (256, vec![0x81, 0x00]),
        (1, vec![0x01]),
        (16383, vec![0xfe, 0x7f]),
        (127, vec![0x7f]),
        (16384, vec![0xff, 0x00]),
        (128, vec![0x80, 0x00]),
        (16511, vec![0xff, 0x7f]),
        (255, vec![0x80, 0x7f]),
        (65535, vec![0x82, 0xfe, 0x7f]),
        (1 << 32, vec![0x8e, 0xfe, 0xfe, 0xff, 0x00]),
    ];

    for (num, bytes) in cases {
        let var_int = VarInt::new(num);
        let encoded = var_int.consensus_encode();
        assert_eq!(encoded, bytes, "encode {} -> {:?}", num, bytes);

        let encoded = bytes.as_slice();
        let (var_int, used) = VarInt::consensus_decode(encoded).expect("decode");
        assert_eq!(var_int, VarInt::new(num), "decode {:?} -> {}", bytes, num);
        assert_eq!(used, bytes.len());
    }
}

#[test]
fn var_int_round_trips_over_the_whole_range() {
    let mut cases: Vec<u64> = vec![0, 1, 127, 128, 16511, 16512, 2113663, 2113664, u64::MAX - 1, u64::MAX];
    let mut n: u64 = 1;
    for _ in 0..63 {
        n = n.wrapping_mul(6364136223846793005).wrapping_add(1442695040888963407);
        cases.push(n);
        cases.push(n >> 17);
        cases.push(n >> 40);
    }
    for num in cases {
        let encoded = VarInt::new(num).consensus_encode();
        assert_eq!(VarInt::consensus_decode(&encoded), Ok((VarInt::new(num), encoded.len())));
        let mut followed = encoded.clone();
        followed.extend_from_slice(&[0xff, 0x00, 0x12]);
        assert_eq!(VarInt::consensus_decode(&followed), Ok((VarInt::new(num), encoded.len())));
    }
}

#[test]
fn var_int_lengths() {
    assert_eq!(VarInt::new(127).consensus_encode().len(), 1);
    assert_eq!(VarInt::new(128).consensus_encode().len(), 2);
    assert_eq!(VarInt::new(16511).consensus_encode().len(), 2);
    assert_eq!(VarInt::new(16512).consensus_encode().len(), 3);
    assert_eq!(VarInt::new(2113663).consensus_encode().len(), 3);
    assert_eq!(VarInt::new(u64::MAX).consensus_encode().len(), 10);
}

#[test]
fn var_int_largest_value() {
    let encoded = VarInt::new(u64::MAX).consensus_encode();
    assert_eq!(encoded, vec![0x80, 0xfe, 0xfe, 0xfe, 0xfe, 0xfe, 0xfe, 0xfe, 0xfe, 0x7f]);
    assert_eq!(VarInt::consensus_decode(&encoded), Ok((VarInt::new(u64::MAX), 10)));
}

#[test]
fn var_int_empty_input_is_short() {
    assert_eq!(VarInt::consensus_decode(&[]), Err(Error::UnexpectedEof));
}

#[test]
fn var_int_unfinished_input_is_short() {
    assert_eq!(VarInt::consensus_decode(&[0x80]), Err(Error::UnexpectedEof));
    assert_eq!(VarInt::consensus_decode(&[0xff, 0xff, 0xff]), Err(Error::UnexpectedEof));
}

#[test]
fn var_int_rejects_more_than_64_bits() {
    // One continuation byte more than the largest value has.
    let bytes = [0x80, 0xfe, 0xfe, 0xfe, 0xfe, 0xfe, 0xfe, 0xfe, 0xfe, 0xff, 0x00];
    assert_eq!(VarInt::consensus_decode(&bytes), Err(Error::NonMinimalVarInt));
    // Ten bytes whose accumulator is too large to take the last digit.
    let bytes = [0x81, 0xfe, 0xfe, 0xfe, 0xfe, 0xfe, 0xfe, 0xfe, 0xfe, 0x00];
    assert_eq!(VarInt::consensus_decode(&bytes), Err(Error::NonMinimalVarInt));
}

#[test]
fn var_int_rejects_increment_past_the_largest_value() {
    // The accumulator reaches the largest value with the continuation bit set.
    let bytes = [0x80, 0xfe, 0xfe, 0xfe, 0xfe, 0xfe, 0xfe, 0xfe, 0xfe, 0xff];
    assert_eq!(VarInt::consensus_decode(&bytes), Err(Error::NonMinimalVarInt));
}

#[test]
fn var_int_short_input_comes_before_overflow() {
    // The accumulator is already too large, but the input ends first.
    let bytes = [0x81, 0xfe, 0xfe, 0xfe, 0xfe, 0xfe, 0xfe, 0xfe, 0xfe];
    assert_eq!(VarInt::consensus_decode(&bytes), Err(Error::UnexpectedEof));
}

#[test]
fn var_int_no_two_encodings() {
    // A zero leading digit does not pad: [0x80, 0x00] is 128, not 0.
    assert_eq!(VarInt::consensus_decode(&[0x80, 0x00]), Ok((VarInt::new(128), 2)));
    assert_eq!(VarInt::consensus_decode(&[0x80, 0x80, 0x00]), Ok((VarInt::new(16512), 3)));
}

#[test]
fn var_int_conversions() {
    assert_eq!(u64::from(VarInt::new(77)), 77);
    assert_eq!(VarInt::from(77u64), VarInt::new(77));
    assert_eq!(VarInt::from(77u32), VarInt::new(77));
    assert_eq!(VarInt::from(77u16), VarInt::new(77));
    assert_eq!(VarInt::from(77u8), VarInt::new(77));
}
