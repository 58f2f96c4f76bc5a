use filedrop::protocol::{
    frame_body_length, read_frame, write_frame, TransferComplete, MAX_CONTROL_FRAME_BYTES,
};

#[test]
fn framed_messages_round_trip() {
    let original = TransferComplete { transfer_id: "transfer-123".to_string() };
    // The JSON body of the message; the serde derives live on the
    // application's copies of the wire types, so the body is built by hand.
    let mut object = serde_json::Map::new();
    object.insert(
        "transferId".to_string(),
        serde_json::Value::String(original.transfer_id.clone()),
    );
    let body = serde_json::to_vec(&serde_json::Value::Object(object)).expect("encode frame");
    let mut bytes = Vec::new();
    write_frame(&mut bytes, &body).expect("encode frame");
    let (decoded_body, used) = read_frame(bytes.as_slice()).expect("decode frame");
    assert_eq!(used, bytes.len());
    let value: serde_json::Value = serde_json::from_slice(&decoded_body).expect("decode frame");
    let decoded = TransferComplete {
        transfer_id: value["transferId"].as_str().expect("decode frame").to_string(),
    };
    assert_eq!(decoded.transfer_id, original.transfer_id);
}

#[test]
fn frames_start_with_a_big_endian_length() {
    let mut bytes = vec![9u8];
    write_frame(&mut bytes, &[1, 2, 3]).unwrap();
    assert_eq!(bytes, vec![9, 0, 0, 0, 3, 1, 2, 3]);
    let body = vec![7u8; 300];
    let mut bytes = Vec::new();
    write_frame(&mut bytes, &body).unwrap();
    assert_eq!(&bytes[..4], &[0, 0, 1, 44]);
}

#[test]
fn oversized_bodies_are_refused() {
    let body = vec![0u8; MAX_CONTROL_FRAME_BYTES + 1];
    let mut bytes = vec![5u8];
    assert_eq!(write_frame(&mut bytes, &body).unwrap_err(), "Transfer message is too large");
    assert_eq!(bytes, vec![5u8]);
    let body = vec![0u8; MAX_CONTROL_FRAME_BYTES];
    assert!(write_frame(&mut Vec::new(), &body).is_ok());
}

#[test]
fn frame_lengths_out_of_range_are_refused() {
    assert_eq!(frame_body_length([0, 0, 0, 0]).unwrap_err(), "Transfer message has an invalid size");
    assert_eq!(frame_body_length([0, 16, 0, 1]).unwrap_err(), "Transfer message has an invalid size");
    assert_eq!(frame_body_length([0, 16, 0, 0]).unwrap(), 1048576);
    assert_eq!(frame_body_length([0, 0, 1, 2]).unwrap(), 258);
}

#[test]
fn short_input_is_reported() {
    assert_eq!(
        read_frame(&[0, 0]).unwrap_err(),
        "Could not read transfer message: failed to fill whole buffer"
    );
    assert_eq!(
        read_frame(&[0, 0, 0, 5, 1, 2]).unwrap_err(),
        "Could not read transfer message body: failed to fill whole buffer"
    );
    assert_eq!(read_frame(&[0, 0, 0, 0]).unwrap_err(), "Transfer message has an invalid size");
}

#[test]
fn a_frame_is_read_from_the_front_of_longer_input() {
    let mut bytes = Vec::new();
    write_frame(&mut bytes, b"first").unwrap();
    write_frame(&mut bytes, b"second").unwrap();
    let (body, used) = read_frame(&bytes).unwrap();
    assert_eq!(body, b"first");
    let (body, _) = read_frame(&bytes[used..]).unwrap();
    assert_eq!(body, b"second");
}
