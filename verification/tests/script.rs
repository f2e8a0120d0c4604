use txoutset::script::{MAX_SCRIPT_SIZE, OP_CHECKSIG, OP_PUSHBYTES_33, OP_PUSHBYTES_65};
use txoutset::{Error, Field, Script, VarInt};

const GENERATOR_X: [u8; 32] = [
    0x79, 0xbe, 0x66, 0x7e, 0xf9, 0xdc, 0xbb, 0xac, 0x55, 0xa0, 0x62, 0x95, 0xce, 0x87, 0x0b, 0x07,
    0x02, 0x9b, 0xfc, 0xdb, 0x2d, 0xce, 0x28, 0xd9, 0x59, 0xf2, 0x81, 0x5b, 0x16, 0xf8, 0x17, 0x98,
];

const GENERATOR_Y: [u8; 32] = [
    0x48, 0x3a, 0xda, 0x77, 0x26, 0xa3, 0xc4, 0x65, 0x5d, 0xa4, 0xfb, 0xfc, 0x0e, 0x11, 0x08, 0xa8,
    0xfd, 0x17, 0xb4, 0x48, 0xa6, 0x85, 0x54, 0x19, 0x9c, 0x47, 0xd0, 0x8f, 0xfb, 0x10, 0xd4, 0xb8,
];

/// The field prime minus the generator's y: the odd root for the same x.
const GENERATOR_Y_ODD: [u8; 32] = [
    0xb7, 0xc5, 0x25, 0x88, 0xd9, 0x5c, 0x3b, 0x9a, 0xa2, 0x5b, 0x04, 0x03, 0xf1, 0xee, 0xf7, 0x57,
    0x02, 0xe8, 0x4b, 0xb7, 0x59, 0x7a, 0xab, 0xe6, 0x63, 0xb8, 0x2f, 0x6f, 0x04, 0xef, 0x27, 0x77,
];

fn hash(seed: u8) -> Vec<u8> {
    (0..20).map(|i| seed.wrapping_add(i)).collect()
}

fn compressed(selector: u8, payload: &[u8]) -> Vec<u8> {
    let mut bytes = vec![selector];
    bytes.extend_from_slice(payload);
    bytes
}

#[test]
fn script_opcodes_are_those_of_bitcoin() {
    assert_eq!(OP_PUSHBYTES_33, bitcoin::opcodes::all::OP_PUSHBYTES_33.to_u8());
    assert_eq!(OP_PUSHBYTES_65, bitcoin::opcodes::all::OP_PUSHBYTES_65.to_u8());
    assert_eq!(OP_CHECKSIG, bitcoin::opcodes::all::OP_CHECKSIG.to_u8());
}

#[test]
fn script_p2pkh() {
    let hash = hash(7);
    let mut expected = vec![0x76, 0xa9, 0x14];
    expected.extend_from_slice(&hash);
    expected.extend_from_slice(&[0x88, 0xac]);

    let input = compressed(0, &hash);
    let (script, used) = Script::consensus_decode(&input).expect("decode");
    assert_eq!(used, 21);
    assert_eq!(script.0.len(), 25);
    assert_eq!(script.clone().into_inner(), expected);
    assert_ne!(script.0, hash);
    assert!(bitcoin::ScriptBuf::from_bytes(script.into_inner()).is_p2pkh());
}

#[test]
fn script_p2sh() {
    let hash = hash(200);
    let mut expected = vec![0xa9, 0x14];
    expected.extend_from_slice(&hash);
    expected.push(0x87);

    let input = compressed(1, &hash);
    let (script, used) = Script::consensus_decode(&input).expect("decode");
    assert_eq!(used, 21);
    assert_eq!(script.0.len(), 23);
    assert_eq!(script.clone().into_inner(), expected);
    assert!(bitcoin::ScriptBuf::from_bytes(script.into_inner()).is_p2sh());
}

#[test]
fn script_p2pk_compressed() {
    for selector in [2u8, 3] {
        let mut expected = vec![0x21, selector];
        expected.extend_from_slice(&GENERATOR_X);
        expected.push(0xac);

        let mut input = compressed(selector, &GENERATOR_X);
        input.extend_from_slice(&[0xde, 0xad]);
        let (script, used) = Script::consensus_decode(&input).expect("decode");
        assert_eq!(used, 33);
        assert_eq!(script.0.len(), 35);
        assert_eq!(script.clone().into_inner(), expected);
        assert!(bitcoin::ScriptBuf::from_bytes(script.into_inner()).is_p2pk());
    }
}

#[test]
fn script_p2pk_compressed_is_not_checked() {
    // No point of the curve has this x-coordinate; the script is built all the same.
    let x = [0xff; 32];
    let (script, used) = Script::consensus_decode(&compressed(2, &x)).expect("decode");
    assert_eq!(used, 33);
    assert_eq!(script.0.len(), 35);
    assert_eq!(&script.0[2..34], &x);
}

#[test]
fn script_p2pk_uncompressed() {
    for (selector, y) in [(4u8, GENERATOR_Y), (5, GENERATOR_Y_ODD)] {
        let mut expected = vec![0x41, 0x04];
        expected.extend_from_slice(&GENERATOR_X);
        expected.extend_from_slice(&y);
        expected.push(0xac);

        let input = compressed(selector, &GENERATOR_X);
        let (script, used) = Script::consensus_decode(&input).expect("decode");
        assert_eq!(used, 33);
        assert_eq!(script.0.len(), 67);
        assert_eq!(script.clone().into_inner(), expected);
        assert!(bitcoin::ScriptBuf::from_bytes(script.into_inner()).is_p2pk());
    }
}

#[test]
fn script_p2pk_uncompressed_rejects_what_is_no_key() {
    let x = [0xff; 32];
    for selector in [4u8, 5] {
        assert_eq!(
            Script::consensus_decode(&compressed(selector, &x)),
            Err(Error::ParseFailed(Field::PublicKey))
        );
    }
    assert_eq!(Script::new_p2pk_uncompressed(2, &x), Err(Error::ParseFailed(Field::PublicKey)));
    assert_eq!(
        Script::new_p2pk_uncompressed(2, &GENERATOR_X[..31]),
        Err(Error::ParseFailed(Field::PublicKey))
    );
    assert_eq!(Script::from_uncompressed_key(None), Err(Error::ParseFailed(Field::PublicKey)));
}

#[test]
fn script_from_uncompressed_key() {
    let key: Vec<u8> = (0..65).collect();
    let mut expected = vec![0x41];
    expected.extend_from_slice(&key);
    expected.push(0xac);
    assert_eq!(Script::from_uncompressed_key(Some(key)), Ok(Script(expected)));
}

#[test]
fn script_raw() {
    let raw = vec![0x00, 0x14, 1, 2, 3, 4, 5, 6, 7, 8, 9, 10, 11, 12, 13, 14, 15, 16, 17, 18, 19, 20];
    let mut input = vec![6 + 22];
    input.extend_from_slice(&raw);
    input.push(0x99);
    let (script, used) = Script::consensus_decode(&input).expect("decode");
    assert_eq!(used, 23);
    assert_eq!(script.into_inner(), raw);
}

#[test]
fn script_raw_empty() {
    let (script, used) = Script::consensus_decode(&[6, 0xaa]).expect("decode");
    assert_eq!(used, 1);
    assert_eq!(script.into_inner(), Vec::<u8>::new());
}

#[test]
fn script_raw_at_the_ceiling_is_kept() {
    let size = MAX_SCRIPT_SIZE as usize;
    let mut input = VarInt::new(MAX_SCRIPT_SIZE + 6).consensus_encode();
    let prefix = input.len();
    input.extend(std::iter::repeat(0x51).take(size));
    let (script, used) = Script::consensus_decode(&input).expect("decode");
    assert_eq!(used, prefix + size);
    assert_eq!(script.0.len(), size);
    assert_eq!(script.into_inner(), vec![0x51; size]);
}

#[test]
fn script_raw_over_the_ceiling_is_consumed_and_replaced() {
    let size = MAX_SCRIPT_SIZE as usize + 1;
    let mut input = VarInt::new(MAX_SCRIPT_SIZE + 1 + 6).consensus_encode();
    let prefix = input.len();
    input.extend(std::iter::repeat(0x51).take(size));
    input.extend_from_slice(&[0x01, 0x02]);
    let (script, used) = Script::consensus_decode(&input).expect("decode");
    assert_eq!(used, prefix + size);
    assert_eq!(script.clone().into_inner(), vec![0x6a]);
    assert_eq!(
        script.into_inner(),
        bitcoin::script::Builder::new()
            .push_opcode(bitcoin::opcodes::all::OP_RETURN)
            .into_script()
            .into_bytes()
    );
}

#[test]
fn script_short_input() {
    assert_eq!(Script::consensus_decode(&[]), Err(Error::UnexpectedEof));
    assert_eq!(Script::consensus_decode(&compressed(0, &hash(1)[..19])), Err(Error::UnexpectedEof));
    assert_eq!(Script::consensus_decode(&compressed(1, &[])), Err(Error::UnexpectedEof));
    assert_eq!(
        Script::consensus_decode(&compressed(3, &GENERATOR_X[..31])),
        Err(Error::UnexpectedEof)
    );
    assert_eq!(
        Script::consensus_decode(&compressed(4, &GENERATOR_X[..31])),
        Err(Error::UnexpectedEof)
    );
    assert_eq!(Script::consensus_decode(&[6 + 3, 1, 2]), Err(Error::UnexpectedEof));
    // A length that no input can hold.
    let input = VarInt::new(u64::MAX).consensus_encode();
    assert_eq!(Script::consensus_decode(&input), Err(Error::UnexpectedEof));
    // An oversized script that is cut short is an error, not a marker.
    let mut input = VarInt::new(MAX_SCRIPT_SIZE + 100).consensus_encode();
    input.extend(std::iter::repeat(0).take(50));
    assert_eq!(Script::consensus_decode(&input), Err(Error::UnexpectedEof));
}

#[test]
fn script_selector_must_be_a_var_int() {
    let bytes = [0x80, 0xfe, 0xfe, 0xfe, 0xfe, 0xfe, 0xfe, 0xfe, 0xfe, 0xff, 0x00];
    assert_eq!(Script::consensus_decode(&bytes), Err(Error::NonMinimalVarInt));
}

#[test]
fn script_hash_must_be_20_bytes() {
    assert_eq!(Script::new_p2pkh(&hash(1)[..19]), Err(Error::ParseFailed(Field::Hash160)));
    assert_eq!(Script::new_p2sh(&[0; 21]), Err(Error::ParseFailed(Field::Hash160)));
    assert_eq!(Script::expand(0, &[0; 32]), Err(Error::ParseFailed(Field::Hash160)));
    assert_eq!(Script::expand(1, &[]), Err(Error::ParseFailed(Field::Hash160)));
    assert!(Script::new_p2pkh(&hash(1)).is_ok());
    assert!(Script::new_p2sh(&hash(1)).is_ok());
}

#[test]
fn script_templates_agree_with_bitcoin() {
    let hash = hash(42);
    let pubkey_hash = <bitcoin::PubkeyHash as bitcoin::hashes::Hash>::from_slice(&hash).expect("20 bytes");
    assert_eq!(
        Script::new_p2pkh(&hash).expect("20 bytes").into_inner(),
        bitcoin::ScriptBuf::new_p2pkh(&pubkey_hash).into_bytes()
    );
    let script_hash = <bitcoin::ScriptHash as bitcoin::hashes::Hash>::from_slice(&hash).expect("20 bytes");
    assert_eq!(
        Script::new_p2sh(&hash).expect("20 bytes").into_inner(),
        bitcoin::ScriptBuf::new_p2sh(&script_hash).into_bytes()
    );
    let mut key = vec![0x03];
    key.extend_from_slice(&GENERATOR_X);
    let public_key = bitcoin::PublicKey::from_slice(&key).expect("a key");
    assert_eq!(
        Script::new_p2pk_compressed(3, &GENERATOR_X).into_inner(),
        bitcoin::ScriptBuf::new_p2pk(&public_key).into_bytes()
    );
}

#[test]
fn script_from_bytes() {
    assert_eq!(Script::from(vec![1, 2, 3]), Script(vec![1, 2, 3]));
    assert_eq!(Script::from(vec![1, 2, 3]).into_inner(), vec![1, 2, 3]);
}
