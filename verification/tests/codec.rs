use ldap_directory::framing::{ber_frame, ber_frame_length, ber_length_octets, ber_payload_length};

fn add_response(message_id: u32, diagnostic: &str) -> rasn_ldap::LdapMessage {
    rasn_ldap::LdapMessage::new(
        message_id,
        rasn_ldap::ProtocolOp::AddResponse(rasn_ldap::AddResponse(rasn_ldap::LdapResult::new(
            rasn_ldap::ResultCode::Success,
            "cn=Alice,dc=dev".into(),
            diagnostic.into(),
        ))),
    )
}

fn read_back(stream: &[u8]) -> (rasn_ldap::LdapMessage, usize) {
    let header = &stream[..2];
    let k = ber_length_octets(header[1]);
    let long = &stream[2..2 + k];
    let len = ber_payload_length(header[1], long).unwrap();
    let payload = &stream[2 + k..2 + k + len];
    let frame = ber_frame(header, long, payload);
    (rasn::ber::decode(&frame).unwrap(), frame.len())
}

#[test]
fn what_the_encoder_writes_is_framed_and_read_back() {
    let msg = add_response(7, "Created new entry");
    let bytes = rasn::ber::encode(&msg).unwrap();
    assert_eq!(ber_frame_length(&bytes), Ok(Some(bytes.len())));
    let (back, taken) = read_back(&bytes);
    assert_eq!(back, msg);
    assert_eq!(taken, bytes.len());
}

#[test]
fn a_long_message_does_not_spill_into_the_next() {
    let long = "x".repeat(70000);
    let first = add_response(1, &long);
    let second = add_response(2, "short");
    let mut stream = rasn::ber::encode(&first).unwrap();
    let first_len = stream.len();
    assert!(first_len > 65535 + 2);
    stream.extend(rasn::ber::encode(&second).unwrap());

    assert_eq!(ber_frame_length(&stream), Ok(Some(first_len)));
    let (back, taken) = read_back(&stream);
    assert_eq!(taken, first_len);
    assert_eq!(back, first);
    let (next, rest) = read_back(&stream[taken..]);
    assert_eq!(next, second);
    assert_eq!(taken + rest, stream.len());
}
