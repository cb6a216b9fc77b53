use phc_value::B64Error;
use phc_value::Value;

#[test]
fn b64_decode_known_vector() {
    let value = Value::new("SGVsbG8").unwrap();
    let mut buf = [0u8; 8];
    let decoded = value.b64_decode(&mut buf).unwrap();
    assert_eq!(decoded, b"Hello");
}

#[test]
fn b64_decode_full_blocks() {
    let value = Value::new("AAAA").unwrap();
    let mut buf = [0u8; 3];
    let decoded = value.b64_decode(&mut buf).unwrap();
    assert_eq!(decoded, &[0u8, 0, 0]);
}

#[test]
fn b64_decode_empty() {
    let value = Value::new("").unwrap();
    let mut buf = [0u8; 4];
    let decoded = value.b64_decode(&mut buf).unwrap();
    assert!(decoded.is_empty());
}

#[test]
fn b64_decode_rejects_invalid_text_length() {
    // A single character can never be a whole B64 block.
    let value = Value::new("A").unwrap();
    let mut buf = [0u8; 4];
    let err = value.b64_decode(&mut buf).err().unwrap();
    assert_eq!(err, B64Error::InvalidEncoding);
}

#[test]
fn b64_decode_rejects_symbol_outside_transcoder_alphabet() {
    // '.' is a legal Value character but not a B64 symbol.
    let value = Value::new("ab.d").unwrap();
    let mut buf = [0u8; 4];
    let err = value.b64_decode(&mut buf).err().unwrap();
    assert_eq!(err, B64Error::InvalidEncoding);
}

#[test]
fn b64_decode_rejects_insufficient_buffer() {
    let value = Value::new("AAAA").unwrap();
    let mut buf = [0u8; 2];
    let err = value.b64_decode(&mut buf).err().unwrap();
    assert_eq!(err, B64Error::InvalidLength);
}
