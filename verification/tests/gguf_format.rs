use tensorgrid::gguf::{dtype_bytes, dtype_from_id, GgufError, GgufParser, GgufValue, GGUF_MAGIC};

fn push_string(buf: &mut Vec<u8>, s: &str) {
    buf.extend_from_slice(&(s.len() as u64).to_le_bytes());
    buf.extend_from_slice(s.as_bytes());
}

/// A small model file: version 3, an architecture string, a block count and
/// a context length, and two tensors.
fn sample_model() -> Vec<u8> {
    let mut buf = Vec::new();
    buf.extend_from_slice(&GGUF_MAGIC.to_le_bytes());
    buf.extend_from_slice(&3u32.to_le_bytes());
    buf.extend_from_slice(&2u64.to_le_bytes());
    buf.extend_from_slice(&3u64.to_le_bytes());
    push_string(&mut buf, "general.architecture");
    buf.extend_from_slice(&8u32.to_le_bytes());
    push_string(&mut buf, "llama");
    push_string(&mut buf, "llama.block_count");
    buf.extend_from_slice(&4u32.to_le_bytes());
    buf.extend_from_slice(&32u32.to_le_bytes());
    push_string(&mut buf, "llama.context_length");
    buf.extend_from_slice(&10u32.to_le_bytes());
    buf.extend_from_slice(&4096u64.to_le_bytes());
    push_string(&mut buf, "token_embd.weight");
    buf.extend_from_slice(&2u32.to_le_bytes());
    buf.extend_from_slice(&4u64.to_le_bytes());
    buf.extend_from_slice(&8u64.to_le_bytes());
    buf.extend_from_slice(&0u32.to_le_bytes());
    buf.extend_from_slice(&0u64.to_le_bytes());
    push_string(&mut buf, "output.weight");
    buf.extend_from_slice(&1u32.to_le_bytes());
    buf.extend_from_slice(&16u64.to_le_bytes());
    buf.extend_from_slice(&1u32.to_le_bytes());
    buf.extend_from_slice(&128u64.to_le_bytes());
    buf
}

#[test]
fn test_magic_number() {
    assert_eq!(GGUF_MAGIC, 0x46554747);
}

#[test]
fn test_dtype_bytes() {
    assert_eq!(dtype_bytes("f32"), Some(4));
    assert_eq!(dtype_bytes("f16"), Some(2));
    assert_eq!(dtype_bytes("i8"), Some(1));
    assert_eq!(dtype_bytes("unknown"), None);
}

#[test]
fn test_value_conversions() {
    let string_val = GgufValue::String("test".to_string());
    assert_eq!(string_val.as_string(), Some("test"));

    let uint_val = GgufValue::Uint32(42);
    assert_eq!(uint_val.as_u64(), Some(42));

    let bool_val = GgufValue::Bool(true);
    assert_eq!(bool_val.as_bool(), Some(true));
}

#[test]
fn value_conversions_refuse_other_types() {
    assert_eq!(GgufValue::Int32(-5).as_u64(), None);
    assert_eq!(GgufValue::Int32(-5).as_i64(), Some(-5));
    assert_eq!(GgufValue::Uint8(7).as_bool(), None);
    assert_eq!(GgufValue::Uint8(7).as_string(), None);
    assert_eq!(GgufValue::Uint64(u64::MAX).as_u64(), Some(u64::MAX));
}

#[test]
fn parses_a_model_header() {
    let buf = sample_model();
    let model = GgufParser::parse_bytes(&buf).unwrap();
    assert_eq!(model.version, 3);
    assert_eq!(model.metadata.entries.len(), 3);
    assert_eq!(GgufParser::get_architecture(&model), Some("llama".to_string()));
    assert_eq!(GgufParser::get_parameter_count(&model), Some(32));
    assert_eq!(GgufParser::get_context_length(&model), Some(4096));
    assert_eq!(model.tensors.len(), 2);
    assert_eq!(model.tensors[0].name, "token_embd.weight");
    assert_eq!(model.tensors[0].shape, vec![4, 8]);
    assert_eq!(model.tensors[0].dtype, "f32");
    assert_eq!(model.tensors[1].dtype, "f16");
    assert_eq!(model.tensors[1].offset, 128);
    // 4 * 8 * 4 bytes of f32 plus 16 * 2 bytes of f16.
    assert_eq!(GgufParser::calculate_size(&model), 160);
}

#[test]
fn read_magic_of_short_input() {
    assert_eq!(GgufParser::read_magic(&[0x47, 0x47]), Err(GgufError::UnexpectedEof));
    assert_eq!(GgufParser::read_magic(&[0x47, 0x47, 0x55, 0x46]), Ok(GGUF_MAGIC));
}

#[test]
fn parse_errors() {
    let mut bad_magic = sample_model();
    bad_magic[0] = b'X';
    assert_eq!(GgufParser::parse_bytes(&bad_magic).unwrap_err(), GgufError::InvalidMagic);

    let full = sample_model();
    assert_eq!(GgufParser::parse_bytes(&full[..20]).unwrap_err(), GgufError::UnexpectedEof);
    assert_eq!(GgufParser::parse_bytes(&full[..full.len() - 1]).unwrap_err(), GgufError::UnexpectedEof);

    let mut bad_type = sample_model();
    let n = bad_type.len();
    // The last tensor's type id sits before its 8-byte offset.
    bad_type[n - 12] = 5;
    assert_eq!(GgufParser::parse_bytes(&bad_type).unwrap_err(), GgufError::UnknownTypeId(5));

    let mut bad_value = Vec::new();
    bad_value.extend_from_slice(&GGUF_MAGIC.to_le_bytes());
    bad_value.extend_from_slice(&3u32.to_le_bytes());
    bad_value.extend_from_slice(&0u64.to_le_bytes());
    bad_value.extend_from_slice(&1u64.to_le_bytes());
    push_string(&mut bad_value, "k");
    bad_value.extend_from_slice(&99u32.to_le_bytes());
    assert_eq!(GgufParser::parse_bytes(&bad_value).unwrap_err(), GgufError::UnknownValueType(99));

    let mut bad_utf8 = Vec::new();
    bad_utf8.extend_from_slice(&GGUF_MAGIC.to_le_bytes());
    bad_utf8.extend_from_slice(&3u32.to_le_bytes());
    bad_utf8.extend_from_slice(&0u64.to_le_bytes());
    bad_utf8.extend_from_slice(&1u64.to_le_bytes());
    bad_utf8.extend_from_slice(&2u64.to_le_bytes());
    bad_utf8.extend_from_slice(&[0xff, 0xfe]);
    assert_eq!(GgufParser::parse_bytes(&bad_utf8).unwrap_err(), GgufError::InvalidUtf8);
}

#[test]
fn error_messages() {
    assert_eq!(GgufError::InvalidMagic.message(), "Invalid GGUF magic number");
    assert_eq!(GgufError::UnknownValueType(13).message(), "Unknown value type: 13");
    assert_eq!(GgufError::UnknownTypeId(4).message(), "Unknown type ID: 4");
}

#[test]
fn dtype_ids() {
    assert_eq!(dtype_from_id(0).unwrap(), "f32");
    assert_eq!(dtype_from_id(8).unwrap(), "q8_0");
    assert_eq!(dtype_from_id(12).unwrap(), "i32");
    assert_eq!(dtype_from_id(4), Err(GgufError::UnknownTypeId(4)));
    assert_eq!(dtype_bytes("q4_1"), Some(1));
    assert_eq!(dtype_bytes("i16"), Some(2));
}

#[test]
fn metadata_lookup_sees_last_entry() {
    let mut buf = Vec::new();
    buf.extend_from_slice(&GGUF_MAGIC.to_le_bytes());
    buf.extend_from_slice(&2u32.to_le_bytes());
    buf.extend_from_slice(&0u64.to_le_bytes());
    buf.extend_from_slice(&2u64.to_le_bytes());
    push_string(&mut buf, "general.architecture");
    buf.extend_from_slice(&8u32.to_le_bytes());
    push_string(&mut buf, "gpt2");
    push_string(&mut buf, "general.architecture");
    buf.extend_from_slice(&8u32.to_le_bytes());
    push_string(&mut buf, "llama");
    let model = GgufParser::parse_bytes(&buf).unwrap();
    assert_eq!(GgufParser::get_architecture(&model), Some("llama".to_string()));
    assert_eq!(GgufParser::get_context_length(&model), None);
}
