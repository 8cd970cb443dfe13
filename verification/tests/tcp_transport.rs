use tensorgrid::tcp::{
    ack_byte, check_ack, decode_header, encode_header, MessageHeader, MessageType, TcpConfig, TcpError, TcpTransport,
    HEADER_LEN,
};

#[test]
fn test_tcp_config_default() {
    let config = TcpConfig::default();
    assert_eq!(config.bind_address, "0.0.0.0:0");
    assert_eq!(config.max_connections, 100);
    assert_eq!(config.buffer_size, 64 * 1024);
    assert_eq!(config.timeout_secs, 30);
}

#[test]
fn test_message_type_conversion() {
    assert_eq!(MessageType::from_u8(0).unwrap(), MessageType::TensorTransfer);
    assert_eq!(MessageType::from_u8(1).unwrap(), MessageType::Ping);
    assert_eq!(MessageType::from_u8(2).unwrap(), MessageType::Ack);
    assert!(MessageType::from_u8(99).is_err());

    assert_eq!(MessageType::TensorTransfer.as_u8(), 0);
    assert_eq!(MessageType::Ping.as_u8(), 1);
    assert_eq!(MessageType::Ack.as_u8(), 2);
}

#[test]
fn test_message_header() {
    let header = MessageHeader {
        message_type: MessageType::TensorTransfer,
        tensor_id: "test_tensor".to_string(),
        payload_length: 1024,
    };

    assert_eq!(header.message_type, MessageType::TensorTransfer);
    assert_eq!(header.tensor_id, "test_tensor");
    assert_eq!(header.payload_length, 1024);
}

#[test]
fn unknown_message_type_is_named() {
    assert_eq!(MessageType::from_u8(3), Err(TcpError::InvalidMessage(3)));
}

#[test]
fn header_roundtrip() {
    let header = MessageHeader {
        message_type: MessageType::TensorTransfer,
        tensor_id: "test_tensor".to_string(),
        payload_length: 1024,
    };
    let bytes = encode_header(&header);
    assert_eq!(bytes.len(), HEADER_LEN);
    assert_eq!(bytes[0], 0);
    assert_eq!(&bytes[1..12], b"test_tensor");
    assert!(bytes[12..17].iter().all(|b| *b == 0));
    let back = decode_header(&bytes).unwrap();
    assert_eq!(back.message_type, MessageType::TensorTransfer);
    assert_eq!(back.tensor_id, "test_tensor");
    assert_eq!(back.payload_length, 1024);
}

#[test]
fn header_length_keeps_whole_multiples_of_256() {
    let header = MessageHeader { message_type: MessageType::Ping, tensor_id: String::new(), payload_length: 1000 };
    let back = decode_header(&encode_header(&header)).unwrap();
    assert_eq!(back.message_type, MessageType::Ping);
    assert_eq!(back.tensor_id, "");
    assert_eq!(back.payload_length, 768);
}

#[test]
fn long_tensor_ids_are_cut_to_sixteen_bytes() {
    let header = MessageHeader {
        message_type: MessageType::Ack,
        tensor_id: "a_very_long_tensor_name".to_string(),
        payload_length: 0,
    };
    let back = decode_header(&encode_header(&header)).unwrap();
    assert_eq!(back.tensor_id, "a_very_long_tens");
    assert_eq!(back.message_type, MessageType::Ack);
}

#[test]
fn decode_rejects_unknown_type() {
    let mut bytes = vec![0u8; HEADER_LEN];
    bytes[0] = 7;
    assert_eq!(decode_header(&bytes).unwrap_err(), TcpError::InvalidMessage(7));
}

#[test]
fn acknowledgements() {
    assert_eq!(ack_byte(true), 1);
    assert_eq!(ack_byte(false), 0);
    assert!(check_ack(1).is_ok());
    assert_eq!(check_ack(0), Err(TcpError::TransferFailed("Remote acknowledged failure".to_string())));
}

#[test]
fn connection_counting() {
    let mut t = TcpTransport::new(TcpConfig::default());
    assert_eq!(t.get_stats().active_connections, 0);
    t.connection_opened();
    t.connection_opened();
    assert_eq!(t.get_stats().active_connections, 2);
    t.connection_closed();
    t.connection_closed();
    t.connection_closed();
    assert_eq!(t.get_stats().active_connections, 0);
    assert_eq!(t.get_stats().max_connections, 100);
}

#[test]
fn chunks_are_at_most_one_buffer() {
    let t = TcpTransport::new(TcpConfig::default());
    assert_eq!(t.chunk_len(100_000, 0), 65536);
    assert_eq!(t.chunk_len(100_000, 65536), 100_000 - 65536);
    assert_eq!(t.chunk_len(10, 9), 1);
}
