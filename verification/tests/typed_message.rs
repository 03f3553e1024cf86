use sha3::Digest;
use typed_sighash::eip712::{
    build_typed_message_hash, encode_number, encode_value, fetch_hash, Eip712Hash, Error, HashRef,
    StructValue, TypedMessage, Value,
};
use typed_sighash::port::{Port, SysError};

fn empty_port() -> Port {
    Port {
        tx_hash: [0u8; 32],
        tx_bytes: vec![],
        inputs_len: 0,
        input_witnesses: vec![],
        group_input_witnesses: vec![],
        input_cell_data: vec![],
        output_cell_data: vec![],
        cell_dep_data: vec![],
        header_dep_data: vec![],
        group_input_cell_data: vec![],
        group_output_cell_data: vec![],
    }
}

fn keccak(data: &[u8]) -> [u8; 32] {
    let mut out = [0u8; 32];
    out.copy_from_slice(&sha3::Keccak256::digest(data));
    out
}

fn pad_unsigned(n: &[u8]) -> [u8; 32] {
    let mut out = [0u8; 32];
    out[32 - n.len()..].copy_from_slice(n);
    out
}

fn message(domain: [u8; 32], type_hash: [u8; 32], values: Vec<Value>) -> TypedMessage {
    TypedMessage::EIP712 {
        domain_separator: HashRef::Inline(domain),
        message: StructValue {
            type_hash: HashRef::Inline(type_hash),
            values,
        },
    }
}

#[test]
fn digest_carries_standard_prefix() {
    // The digest is Keccak256(0x19 || 0x01 || domain || struct hash).
    let domain = [0x0Du8; 32];
    let type_hash = [0x7Eu8; 32];
    let msg = message(domain, type_hash, vec![Value::Uint(vec![0x01])]);
    let port = empty_port();

    let mut struct_pre = type_hash.to_vec();
    struct_pre.extend_from_slice(&pad_unsigned(&[0x01]));
    let struct_hash = keccak(&struct_pre);
    let mut pre = vec![0x19u8, 0x01u8];
    pre.extend_from_slice(&domain);
    pre.extend_from_slice(&struct_hash);
    let expected = keccak(&pre);

    assert_eq!(build_typed_message_hash(&port, &msg), Ok(expected));
}

#[test]
fn digest_changes_with_domain_and_leaf() {
    let port = empty_port();
    let base = message([0u8; 32], [1u8; 32], vec![Value::Uint(vec![0x01])]);
    let other_domain = {
        let mut d = [0u8; 32];
        d[7] = 1;
        message(d, [1u8; 32], vec![Value::Uint(vec![0x01])])
    };
    let other_leaf = message([0u8; 32], [1u8; 32], vec![Value::Uint(vec![0x02])]);
    let h = build_typed_message_hash(&port, &base).unwrap();
    assert_ne!(h, build_typed_message_hash(&port, &other_domain).unwrap());
    assert_ne!(h, build_typed_message_hash(&port, &other_leaf).unwrap());
}

#[test]
fn typed_digest_is_deterministic() {
    let port = empty_port();
    let msg = message([3u8; 32], [4u8; 32], vec![Value::Bool(1), Value::Bytes(b"data".to_vec())]);
    assert_eq!(
        build_typed_message_hash(&port, &msg),
        build_typed_message_hash(&port, &msg)
    );
}

#[test]
fn eip712_hash_wraps_digest() {
    let port = empty_port();
    let msg = message([9u8; 32], [8u8; 32], vec![]);
    let d = build_typed_message_hash(&port, &msg).unwrap();
    let Eip712Hash(h) = Eip712Hash::compute(&port, &msg).unwrap();
    assert_eq!(h, d);
}

#[test]
fn uint_padding_is_value_preserving() {
    // 0x01 and 0x0001 are the same number and must encode identically.
    let mut a: Vec<u8> = Vec::new();
    let mut b: Vec<u8> = Vec::new();
    assert_eq!(encode_number(&mut a, &[0x01], false), Ok(()));
    assert_eq!(encode_number(&mut b, &[0x00, 0x01], false), Ok(()));
    assert_eq!(a, b);
    assert_eq!(a, pad_unsigned(&[0x01]).to_vec());
}

#[test]
fn int_negative_one_is_all_ff() {
    let mut buf: Vec<u8> = Vec::new();
    assert_eq!(encode_number(&mut buf, &[0xFF], true), Ok(()));
    assert_eq!(buf, vec![0xFFu8; 32]);
}

#[test]
fn int_sign_extension_follows_sign_bit() {
    let mut neg: Vec<u8> = Vec::new();
    assert_eq!(encode_number(&mut neg, &[0x80, 0x05], true), Ok(()));
    assert_eq!(&neg[..30], &[0xFFu8; 30][..]);
    assert_eq!(&neg[30..], &[0x80, 0x05]);
    let mut pos: Vec<u8> = Vec::new();
    assert_eq!(encode_number(&mut pos, &[0x7F, 0x05], true), Ok(()));
    assert_eq!(&pos[..30], &[0u8; 30][..]);
}

#[test]
fn number_longer_than_word_is_rejected() {
    let mut buf: Vec<u8> = Vec::new();
    assert_eq!(encode_number(&mut buf, &[1u8; 33], false), Err(Error::InvalidNumber));
    assert!(buf.is_empty());
    let port = empty_port();
    let mut buf2: Vec<u8> = Vec::new();
    assert_eq!(
        encode_value(&port, &mut buf2, &Value::Uint(vec![1u8; 33])),
        Err(Error::InvalidNumber)
    );
}

#[test]
fn fixed_bytes_of_33_is_rejected() {
    let port = empty_port();
    let mut buf: Vec<u8> = Vec::new();
    assert_eq!(
        encode_value(&port, &mut buf, &Value::FixedBytes(vec![7u8; 33])),
        Err(Error::InvalidFixedBytes)
    );
    assert!(buf.is_empty());
}

#[test]
fn fixed_bytes_of_32_pads_nothing() {
    let port = empty_port();
    let mut buf: Vec<u8> = Vec::new();
    let data = [0xC3u8; 32];
    assert_eq!(encode_value(&port, &mut buf, &Value::FixedBytes(data.to_vec())), Ok(()));
    assert_eq!(buf, data.to_vec());
}

#[test]
fn fixed_bytes_left_aligns_and_zero_pads() {
    let port = empty_port();
    let mut buf: Vec<u8> = Vec::new();
    assert_eq!(encode_value(&port, &mut buf, &Value::FixedBytes(vec![1, 2, 3])), Ok(()));
    let mut expected = vec![1u8, 2, 3];
    expected.extend_from_slice(&[0u8; 29]);
    assert_eq!(buf, expected);
}

#[test]
fn bool_bytes_are_validated() {
    let port = empty_port();
    let mut buf: Vec<u8> = Vec::new();
    assert_eq!(encode_value(&port, &mut buf, &Value::Bool(2)), Err(Error::InvalidBool));
    assert!(buf.is_empty());
    let mut buf2: Vec<u8> = Vec::new();
    assert_eq!(encode_value(&port, &mut buf2, &Value::Bool(1)), Ok(()));
    assert_eq!(buf2, pad_unsigned(&[1]).to_vec());
}

#[test]
fn bytes_and_strings_contribute_their_digest() {
    let port = empty_port();
    let mut buf: Vec<u8> = Vec::new();
    assert_eq!(encode_value(&port, &mut buf, &Value::Bytes(b"hello".to_vec())), Ok(()));
    assert_eq!(buf, keccak(b"hello").to_vec());
    let mut buf2: Vec<u8> = Vec::new();
    assert_eq!(encode_value(&port, &mut buf2, &Value::String(b"hello".to_vec())), Ok(()));
    assert_eq!(buf2, keccak(b"hello").to_vec());
}

#[test]
fn address_encodes_as_unsigned_number() {
    let port = empty_port();
    let mut buf: Vec<u8> = Vec::new();
    let addr = [0xA1u8; 20];
    assert_eq!(encode_value(&port, &mut buf, &Value::Address(addr.to_vec())), Ok(()));
    assert_eq!(buf, pad_unsigned(&addr).to_vec());
}

#[test]
fn array_elements_flatten_in_place() {
    // Elements are appended directly to the enclosing hash input, not
    // hashed as one unit first.
    let port = empty_port();
    let arr = Value::Array(vec![Value::Uint(vec![1]), Value::Uint(vec![2])]);
    let mut buf: Vec<u8> = Vec::new();
    assert_eq!(encode_value(&port, &mut buf, &arr), Ok(()));
    let mut expected = pad_unsigned(&[1]).to_vec();
    expected.extend_from_slice(&pad_unsigned(&[2]));
    assert_eq!(buf, expected);
}

#[test]
fn failing_array_keeps_only_its_encoded_prefix() {
    // Elements before the failing one are already flattened into the hash
    // input when the error is reported; the failing element adds nothing.
    let port = empty_port();
    let arr = Value::Array(vec![Value::Uint(vec![1]), Value::FixedBytes(vec![0u8; 33])]);
    let mut buf: Vec<u8> = Vec::new();
    assert_eq!(encode_value(&port, &mut buf, &arr), Err(Error::InvalidFixedBytes));
    assert_eq!(buf, pad_unsigned(&[1]).to_vec());
}

#[test]
fn nested_struct_contributes_its_hash() {
    let port = empty_port();
    let inner = StructValue {
        type_hash: HashRef::Inline([5u8; 32]),
        values: vec![Value::Uint(vec![9])],
    };
    let mut inner_pre = [5u8; 32].to_vec();
    inner_pre.extend_from_slice(&pad_unsigned(&[9]));
    let inner_hash = keccak(&inner_pre);
    let mut buf: Vec<u8> = Vec::new();
    assert_eq!(encode_value(&port, &mut buf, &Value::Struct(inner)), Ok(()));
    assert_eq!(buf, inner_hash.to_vec());
}

#[test]
fn cell_ref_reads_hash_window() {
    let mut port = empty_port();
    let mut data = vec![0u8; 8];
    data.extend_from_slice(&[0x5Au8; 32]);
    data.extend_from_slice(&[1, 2, 3]);
    port.output_cell_data = vec![vec![], data];
    let h = HashRef::CellRef { source: 2, index: 1, offset: 8 };
    assert_eq!(fetch_hash(&port, &h), Ok(vec![0x5Au8; 32]));
}

#[test]
fn transaction_ref_reads_hash_window() {
    let mut port = empty_port();
    port.tx_bytes = vec![9u8; 40];
    let h = HashRef::TransactionRef { offset: 8 };
    assert_eq!(fetch_hash(&port, &h), Ok(vec![9u8; 32]));
}

#[test]
fn short_hash_window_is_eof() {
    let mut port = empty_port();
    port.input_cell_data = vec![vec![0u8; 33]];
    let h = HashRef::CellRef { source: 1, index: 0, offset: 2 };
    assert_eq!(fetch_hash(&port, &h), Err(Error::CellDataEof));
    let t = HashRef::TransactionRef { offset: 0 };
    assert_eq!(fetch_hash(&port, &t), Err(Error::CellDataEof));
}

#[test]
fn unknown_source_code_is_rejected() {
    let port = empty_port();
    let h = HashRef::CellRef { source: 99, index: 0, offset: 0 };
    assert_eq!(fetch_hash(&port, &h), Err(Error::InvalidSource));
}

#[test]
fn missing_cell_is_out_of_bound() {
    let port = empty_port();
    let h = HashRef::CellRef { source: 1, index: 0, offset: 0 };
    assert_eq!(fetch_hash(&port, &h), Err(Error::Sys(SysError::IndexOutOfBound)));
}

#[test]
fn group_sources_resolve_against_group_regions() {
    let mut port = empty_port();
    port.group_input_cell_data = vec![vec![0x21u8; 32]];
    let h = HashRef::CellRef { source: 0x0100_0000_0000_0001, index: 0, offset: 0 };
    assert_eq!(fetch_hash(&port, &h), Ok(vec![0x21u8; 32]));
}

#[test]
fn domain_errors_take_precedence() {
    // The domain separator is resolved before the message struct.
    let port = empty_port();
    let msg = TypedMessage::EIP712 {
        domain_separator: HashRef::CellRef { source: 99, index: 0, offset: 0 },
        message: StructValue {
            type_hash: HashRef::CellRef { source: 98, index: 0, offset: 0 },
            values: vec![],
        },
    };
    assert_eq!(build_typed_message_hash(&port, &msg), Err(Error::InvalidSource));
}

#[test]
fn empty_bytes_contribute_digest_of_nothing() {
    let port = empty_port();
    let mut buf: Vec<u8> = Vec::new();
    assert_eq!(encode_value(&port, &mut buf, &Value::Bytes(vec![])), Ok(()));
    assert_eq!(buf, keccak(b"").to_vec());
}

#[test]
fn empty_uint_encodes_as_zero_word() {
    let port = empty_port();
    let mut buf: Vec<u8> = Vec::new();
    assert_eq!(encode_value(&port, &mut buf, &Value::Uint(vec![])), Ok(()));
    assert_eq!(buf, vec![0u8; 32]);
}

#[test]
fn empty_struct_hashes_type_hash_alone() {
    let port = empty_port();
    let msg = message([2u8; 32], [6u8; 32], vec![]);
    let struct_hash = keccak(&[6u8; 32]);
    let mut pre = vec![0x19u8, 0x01u8];
    pre.extend_from_slice(&[2u8; 32]);
    pre.extend_from_slice(&struct_hash);
    assert_eq!(build_typed_message_hash(&port, &msg), Ok(keccak(&pre)));
}
